//! Which requests are deployed, refused or passed over, by what they hold.
use vstd::prelude::*;

#[allow(unused_imports)]
use crate::config::{project_with, LoadedConfig, Project};
#[allow(unused_imports)]
use crate::db::rules::{CreatedView, DatabaseView};
#[allow(unused_imports)]
use crate::error::AppErrorView;
#[allow(unused_imports)]
use crate::pattern::{pattern_match, project_id_text};
#[allow(unused_imports)]
use crate::text::{begins_with, lower_object_id};
#[allow(unused_imports)]
use crate::web::{
    body_reception, event_answer, event_of, hook, payload_flaw, payload_reception, reception,
    tag_of, token_flaw, Body, GiteeTagPayload, Header, HookRequest, HookResponseView,
    ReceptionView, GITEE_PING_HEADER, GITEE_TOKEN_HEADER, HEALTH_ROUTE, HOOK_ROUTE,
};

verus! {

/// Whether a text is a Git object identifier in lowercase: 40 digits or letters from `a` to `f`.
pub open spec fn names_object(text: Seq<char>) -> bool {
    text.len() == 40 && forall|i: int|
        0 <= i < text.len() ==> ('0' <= #[trigger] text[i] && text[i] <= '9') || ('a' <= text[i]
            && text[i] <= 'f')
}

/// Whether a text holds a character other than `0`.
pub open spec fn has_nonzero(text: Seq<char>) -> bool {
    exists|i: int| 0 <= i < text.len() && #[trigger] text[i] != '0'
}

/// Whether a body is an event of a tag of the repository of a project, and not at odds with
/// itself.
pub open spec fn tells_of_tag(project: Project, payload: GiteeTagPayload, tag: Seq<char>) -> bool {
    &&& payload.hook_name@ == "tag_push_hooks"@
    &&& !(payload.created && payload.deleted)
    &&& payload.repository.full_name@ == project.repository_full_name@
    &&& tag.len() > 0
    &&& payload.reference@ == "refs/tags/"@ + tag
    &&& names_object(payload.after@)
    &&& payload.created ==> has_nonzero(payload.after@)
}

proof fn the_zero_object(text: Seq<char>)
    requires
        text.len() == 40,
    ensures
        text == "0000000000000000000000000000000000000000"@ <==> !has_nonzero(text),
{
    reveal_strlit("0000000000000000000000000000000000000000");
    let zeros = "0000000000000000000000000000000000000000"@;
    assert(zeros.len() == 40);
    assert forall|i: int| 0 <= i < 40 implies #[trigger] zeros[i] == '0' by {}
    if !has_nonzero(text) {
        assert forall|i: int| 0 <= i < 40 implies text[i] == zeros[i] by {
            assert(!(text[i] != '0'));
        }
        assert(text =~= zeros);
    }
}

/// An event is well formed for a project exactly if it is a tag event, does not both create and
/// delete, is about the repository of the project, names a tag and names an object, which is not
/// all zeros where the tag is created.
pub proof fn well_formed_events(project: Project, payload: GiteeTagPayload)
    ensures
        payload_flaw(project, payload) is None <==> exists|tag: Seq<char>|
            tells_of_tag(project, payload, tag),
        payload_flaw(project, payload) matches Some(error) ==> error is RequestValidation,
        forall|tag: Seq<char>| #[trigger]
            tells_of_tag(project, payload, tag) ==> tag == tag_of(payload.reference@),
{
    if names_object(payload.after@) {
        the_zero_object(payload.after@);
    }
    assert(lower_object_id(payload.after@) <==> names_object(payload.after@));
    let prefix = "refs/tags/"@;
    assert forall|tag: Seq<char>| #[trigger] tells_of_tag(project, payload, tag) implies tag
        == tag_of(payload.reference@) && begins_with(payload.reference@, prefix) by {
        assert((prefix + tag).skip(prefix.len() as int) =~= tag);
        assert((prefix + tag).take(prefix.len() as int) =~= prefix);
    }
    if payload_flaw(project, payload) is None {
        let tag = tag_of(payload.reference@);
        assert(prefix + tag =~= payload.reference@);
        assert(tells_of_tag(project, payload, tag));
    }
}

/// Whether a request holds the token of a project and is no ping.
pub open spec fn reports(project: Project, request: HookRequest) -> bool {
    &&& request.token matches Some(token) && token@ == vstd::utf8::encode_utf8(
        project.webhook_token@,
    )
    &&& match request.ping {
        Header::Absent => true,
        Header::Text(ping) => ping@ == "false"@,
        Header::Invalid { .. } => false,
    }
}

/// Whether a request asks for a deployment of a tag: it holds the token of the project, is no
/// ping, and tells that a tag which matches the pattern of the project was created.
pub open spec fn asks_for(project: Project, request: HookRequest, tag: Seq<char>) -> bool {
    &&& reports(project, request)
    &&& request.body matches Body::Payload(payload) && {
        &&& tells_of_tag(project, payload, tag)
        &&& payload.created
        &&& pattern_match(project.tag_pattern@, tag) == Some(true)
    }
}

/// A request leads to a deployment exactly if it asks a configured project for one, and then to
/// that of the tag and the object that it names.
pub proof fn exactly_wanted_tags_lead_to_deployments(config: LoadedConfig, request: HookRequest)
    ensures
        reception(config, request) matches Ok(ReceptionView::Deploy(_)) <==> (project_with(
            config.projects@,
            request.project_id@,
        ) matches Some(project) && exists|tag: Seq<char>| asks_for(project, request, tag)),
        reception(config, request) matches Ok(ReceptionView::Deploy(event)) ==> (project_with(
            config.projects@,
            request.project_id@,
        ) matches Some(project) && asks_for(project, request, event.tag) && event.project_id
            == project.project_id@ && (request.body matches Body::Payload(payload) && event.sha
            == payload.after@)),
{
    reveal_strlit("true");
    reveal_strlit("false");
    assert("true"@.len() != "false"@.len());
    if let Some(project) = project_with(config.projects@, request.project_id@) {
        if let Body::Payload(payload) = request.body {
            well_formed_events(project, payload);
            if exists|tag: Seq<char>| asks_for(project, request, tag) {
                let tag = choose|tag: Seq<char>| asks_for(project, request, tag);
                assert(tells_of_tag(project, payload, tag));
            }
            if payload_flaw(project, payload) is None {
                let tag = choose|tag: Seq<char>| tells_of_tag(project, payload, tag);
                assert(tag == tag_of(payload.reference@));
                assert(tells_of_tag(project, payload, tag));
                if reception(config, request) matches Ok(ReceptionView::Deploy(_)) {
                    assert(asks_for(project, request, tag));
                }
            }
        }
    }
}

/// A request that holds the token of its project and asks for nothing is answered with success
/// and the reason why nothing is done, and nothing is stored: a ping, the deletion of a tag, an
/// event that creates none, and a tag that does not match the pattern.
pub proof fn other_events_are_passed_over(
    config: LoadedConfig,
    db: DatabaseView,
    request: HookRequest,
    project: Project,
    tag: Seq<char>,
    id: Seq<char>,
    now: Seq<char>,
)
    requires
        project_with(config.projects@, request.project_id@) == Some(project),
        request.token matches Some(token) && token@ == vstd::utf8::encode_utf8(
            project.webhook_token@,
        ),
    ensures
        ({
            let (after, result) = hook(config, db, request, id, now);
            let passed = |reason: Seq<char>|
                after == db && (result matches Ok((status, response)) && status == 200
                    && response.ok && !response.accepted && !response.duplicate
                    && response.deployment is None && response.reason == Some(reason));
            &&& (request.ping matches Header::Text(ping) && ping@ == "true"@) ==> passed("ping"@)
            &&& reports(project, request) && (request.body matches Body::Payload(payload)
                && tells_of_tag(project, payload, tag)) ==> (request.body matches Body::Payload(
                payload,
            ) && {
                &&& payload.deleted ==> passed("tagDeleted"@)
                &&& !payload.deleted && !payload.created ==> passed("tagNotCreated"@)
                &&& payload.created && pattern_match(project.tag_pattern@, tag) != Some(true)
                    ==> passed("tagPatternMismatch"@)
            })
        }),
{
    reveal_strlit("true");
    reveal_strlit("false");
    assert("true"@.len() != "false"@.len());
    if let Body::Payload(payload) = request.body {
        well_formed_events(project, payload);
        if tells_of_tag(project, payload, tag) {
            assert(payload_flaw(project, payload) is None);
        }
    }
}

/// A request that is refused stores nothing. With the token of its project it is refused where it
/// says neither yes nor no to being a ping, where its body is too large, was not received or is no
/// event, and where the event is not well formed for the project; a ping is never refused for its
/// body.
pub proof fn broken_requests_are_refused(
    config: LoadedConfig,
    db: DatabaseView,
    request: HookRequest,
    project: Project,
    id: Seq<char>,
    now: Seq<char>,
)
    requires
        project_with(config.projects@, request.project_id@) == Some(project),
        request.token matches Some(token) && token@ == vstd::utf8::encode_utf8(
            project.webhook_token@,
        ),
    ensures
        reception(config, request) is Err ==> hook(config, db, request, id, now).0 == db,
        reception(config, request) is Err <==> match request.ping {
            Header::Invalid { .. } => true,
            Header::Text(ping) if ping@ == "true"@ => false,
            Header::Text(ping) if ping@ != "false"@ => true,
            _ => match request.body {
                Body::Payload(payload) => !exists|tag: Seq<char>|
                    tells_of_tag(project, payload, tag),
                _ => true,
            },
        },
        reception(config, request) matches Err(error) ==> if error is RequestTooLarge {
            reports(project, request) && request.body is TooLarge && error.status_code() == 413
        } else {
            error is RequestValidation && error.status_code() == 400
        },
        reports(project, request) && request.body is TooLarge ==> (reception(
            config,
            request,
        ) matches Err(error) && error is RequestTooLarge),
{
    reveal_strlit("true");
    reveal_strlit("false");
    assert("true"@.len() != "false"@.len());
    if let Body::Payload(payload) = request.body {
        well_formed_events(project, payload);
    }
}

/// Two events have the same key exactly if they are for the same project and name the same
/// reference and the same object.
pub proof fn event_keys_tell_events_apart(
    left: Project,
    left_payload: GiteeTagPayload,
    right: Project,
    right_payload: GiteeTagPayload,
)
    requires
        project_id_text(left.project_id@),
        project_id_text(right.project_id@),
        left_payload.after@.len() == 40,
        right_payload.after@.len() == 40,
    ensures
        event_of(left, left_payload).event_key == event_of(right, right_payload).event_key
            <==> left.project_id@ == right.project_id@ && left_payload.reference@
            == right_payload.reference@ && left_payload.after@ == right_payload.after@,
{
    reveal_strlit(":");
    let a = event_of(left, left_payload).event_key;
    let b = event_of(right, right_payload).event_key;
    let head = "gitee:"@;
    let (p, q) = (left.project_id@, right.project_id@);
    let (r, s) = (left_payload.reference@, right_payload.reference@);
    let n = head.len() as int;
    if a == b {
        assert forall|i: int| 0 <= i < p.len() implies p[i] != ':' by {}
        assert forall|i: int| 0 <= i < q.len() implies q[i] != ':' by {}
        assert(a[n + p.len()] == ':');
        assert(b[n + q.len()] == ':');
        if p.len() < q.len() {
            assert(b[n + p.len()] == q[p.len() as int]);
        }
        if q.len() < p.len() {
            assert(a[n + q.len()] == p[q.len() as int]);
        }
        assert(p.len() == q.len());
        assert forall|i: int| 0 <= i < p.len() implies p[i] == q[i] by {
            assert(a[n + i] == p[i]);
            assert(b[n + i] == q[i]);
        }
        assert(p =~= q);
        let m = n + p.len() + 1;
        assert(a.len() == m + r.len() + 41);
        assert(b.len() == m + s.len() + 41);
        assert forall|i: int| 0 <= i < r.len() implies r[i] == s[i] by {
            assert(a[m + i] == r[i]);
            assert(b[m + i] == s[i]);
        }
        assert(r =~= s);
        assert forall|i: int| 0 <= i < 40 implies left_payload.after@[i]
            == right_payload.after@[i] by {
            assert(a[m + r.len() + 1 + i] == left_payload.after@[i]);
            assert(b[m + s.len() + 1 + i] == right_payload.after@[i]);
        }
        assert(left_payload.after@ =~= right_payload.after@);
    }
}

/// An event that leads to a new deployment is answered as accepted, one that repeats an earlier
/// one as a duplicate, each with its deployment.
pub proof fn events_are_answered_with_their_deployment(created: CreatedView)
    ensures
        ({
            let (status, response) = event_answer(created);
            &&& status == 202 <==> created.created
            &&& status == 200 <==> !created.created
            &&& response.ok && response.accepted == created.created && response.duplicate
                != response.accepted
            &&& response.deployment == Some(created.deployment) && response.reason is None
        }),
{
}

/// The project with an identifier is the first of those that have it, and there is none exactly
/// if none has it.
pub proof fn projects_are_found_by_their_identifier(projects: Seq<Project>, project_id: Seq<char>)
    ensures
        match project_with(projects, project_id) {
            None => forall|i: int|
                0 <= i < projects.len() ==> (#[trigger] projects[i]).project_id@ != project_id,
            Some(project) => project.project_id@ == project_id && exists|i: int|
                0 <= i < projects.len() && #[trigger] projects[i] == project && (forall|j: int|
                    0 <= j < i ==> (#[trigger] projects[j]).project_id@ != project_id),
        },
    decreases projects.len(),
{
    if projects.len() > 0 && projects[0].project_id@ != project_id {
        let rest = projects.drop_first();
        projects_are_found_by_their_identifier(rest, project_id);
        match project_with(projects, project_id) {
            None => {
                assert forall|i: int| 0 <= i < projects.len() implies (#[trigger]
                projects[i]).project_id@ != project_id by {
                    if i > 0 {
                        assert(rest[i - 1] == projects[i]);
                    }
                }
            },
            Some(project) => {
                let i = choose|i: int|
                    0 <= i < rest.len() && #[trigger] rest[i] == project && (forall|j: int|
                        0 <= j < i ==> (#[trigger] rest[j]).project_id@ != project_id);
                assert(projects[i + 1] == project);
                assert forall|j: int| 0 <= j < i + 1 implies (#[trigger] projects[j]).project_id@
                    != project_id by {
                    if j > 0 {
                        assert(rest[j - 1] == projects[j]);
                    }
                }
            },
        }
    }
}

/// The paths and the headers of requests are those that are documented for the service.
pub proof fn requests_are_recognized()
    ensures
        HOOK_ROUTE@ == "/v1/hooks/gitee/{projectId}"@,
        HEALTH_ROUTE@ == "/healthz"@,
        GITEE_TOKEN_HEADER@ == "x-gitee-token"@,
        GITEE_PING_HEADER@ == "x-gitee-ping"@,
{
}

/// Whether an error refuses a request for a reason that begins with a text.
pub open spec fn refused_for(found: Option<AppErrorView>, beginning: Seq<char>) -> bool {
    found matches Some(AppErrorView::RequestValidation { reason }) && begins_with(reason, beginning)
}

/// Of several faults of an event the first is told, in this order: the name of the event, that it
/// both creates and deletes, the repository, the kind of reference, the name of the tag, the
/// object, and that a created tag names no object.
pub proof fn event_faults_come_in_order(project: Project, payload: GiteeTagPayload)
    ensures
        ({
            let found = payload_flaw(project, payload);
            let reference = payload.reference@;
            if payload.hook_name@ != "tag_push_hooks"@ {
                refused_for(found, "hook_name must be "@)
            } else if payload.created && payload.deleted {
                refused_for(found, "created and deleted cannot both be true"@)
            } else if payload.repository.full_name@ != project.repository_full_name@ {
                refused_for(found, "repository.full_name must be "@)
            } else if !begins_with(reference, "refs/tags/"@) {
                refused_for(found, "ref "@)
            } else if reference == "refs/tags/"@ {
                refused_for(found, "ref must contain a non-empty Tag name"@)
            } else if !names_object(payload.after@) {
                refused_for(
                    found,
                    "after must be a lowercase 40-character hexadecimal Git object ID, got "@,
                )
            } else if payload.created && !has_nonzero(payload.after@) {
                refused_for(found, "created Tag after cannot be the all-zero Git object ID"@)
            } else {
                found is None
            }
        }),
{
    let found = payload_flaw(project, payload);
    let reference = payload.reference@;
    let prefix = "refs/tags/"@;
    if names_object(payload.after@) {
        the_zero_object(payload.after@);
    }
    assert(lower_object_id(payload.after@) <==> names_object(payload.after@));
    if begins_with(reference, prefix) {
        assert(reference =~= prefix + tag_of(reference));
        if tag_of(reference).len() == 0 {
            assert(reference =~= prefix);
        }
    }
    if let Some(AppErrorView::RequestValidation { reason }) = found {
        begins_with_itself(reason);
        if payload.hook_name@ != "tag_push_hooks"@ {
            assert(reason.take("hook_name must be "@.len() as int) =~= "hook_name must be "@);
        } else if !(payload.created && payload.deleted) {
            if payload.repository.full_name@ != project.repository_full_name@ {
                assert(reason.take("repository.full_name must be "@.len() as int)
                    =~= "repository.full_name must be "@);
            } else if !begins_with(reference, prefix) {
                assert(reason.take("ref "@.len() as int) =~= "ref "@);
            } else if tag_of(reference).len() > 0 && !names_object(payload.after@) {
                let beginning =
                    "after must be a lowercase 40-character hexadecimal Git object ID, got "@;
                assert(reason.take(beginning.len() as int) =~= beginning);
            }
        }
    }
}

proof fn begins_with_itself(text: Seq<char>)
    ensures
        begins_with(text, text),
{
    assert(text.take(text.len() as int) =~= text);
}

} // verus!

//! Webhooks: which requests are accepted, and what each is answered.
use vstd::prelude::*;

#[allow(unused_imports)]
use crate::config::project_with;
use crate::config::{LoadedConfig, Project};
#[allow(unused_imports)]
use crate::db::laws::an_event_is_deployed_once;
#[allow(unused_imports)]
use crate::db::rules::{CreatedView, DatabaseView};
use crate::db::{CreatedDeployment, Database};
use crate::error::{invalid_request, AppError};
#[allow(unused_imports)]
use crate::error::{outcome, AppErrorView};
use crate::model::Deployment;
#[allow(unused_imports)]
use crate::model::DeploymentView;
#[allow(unused_imports)]
use crate::pattern::pattern_match;
use crate::pattern::tag_matches;
#[allow(unused_imports)]
use crate::stamp::{utc_millis, uuid_text};
#[allow(unused_imports)]
use crate::text::{begins_with, lower_object_id, signed_decimal, str_debug};
use crate::text::{
    cat2, cat3, cat4, cat6, debug_text, is_lower_object_id, strip_prefix, text_eq,
};

pub mod laws;

verus! {

/// The header that holds the token of a project.
pub const GITEE_TOKEN_HEADER: &'static str = "x-gitee-token";

/// The header that tells a ping from an event.
pub const GITEE_PING_HEADER: &'static str = "x-gitee-ping";

/// The name of the events that are deployed.
pub const TAG_HOOK_NAME: &'static str = "tag_push_hooks";

/// The path under which the webhook of a project is received.
pub const HOOK_ROUTE: &'static str = "/v1/hooks/gitee/{projectId}";

/// The path under which the service says that it is healthy.
pub const HEALTH_ROUTE: &'static str = "/healthz";

/// The body of a tag event.
#[derive(Debug, Clone)]
pub struct GiteeTagPayload {
    pub hook_name: String,
    pub created: bool,
    pub deleted: bool,
    pub reference: String,
    pub after: String,
    pub repository: GiteeRepository,
}

/// The repository of a tag event.
#[derive(Debug, Clone)]
pub struct GiteeRepository {
    pub full_name: String,
}

/// A header of a request.
#[derive(Debug, Clone)]
pub enum Header {
    /// There is none.
    Absent,
    /// Its text.
    Text(String),
    /// It is no text.
    Invalid { source: String },
}

/// The body of a request.
#[derive(Debug, Clone)]
pub enum Body {
    /// It is longer than bodies may be.
    TooLarge { reason: String },
    /// It could not be received.
    Rejected { reason: String },
    /// It is no tag event.
    Malformed { source: String },
    /// A tag event.
    Payload(GiteeTagPayload),
}

/// A request to the webhook of a project.
#[derive(Debug, Clone)]
pub struct HookRequest {
    pub project_id: String,
    pub token: Option<Vec<u8>>,
    pub ping: Header,
    pub body: Body,
}

/// The answer to a request.
#[derive(Debug)]
pub struct HookResponse {
    pub ok: bool,
    pub accepted: bool,
    pub duplicate: bool,
    pub reason: Option<&'static str>,
    pub deployment: Option<Deployment>,
}

/// The answer to a request, with the characters of its texts.
#[verifier::ext_equal]
pub struct HookResponseView {
    pub ok: bool,
    pub accepted: bool,
    pub duplicate: bool,
    pub reason: Option<Seq<char>>,
    pub deployment: Option<DeploymentView>,
}

impl DeepView for HookResponse {
    type V = HookResponseView;

    open spec fn deep_view(&self) -> HookResponseView {
        HookResponseView {
            ok: self.ok,
            accepted: self.accepted,
            duplicate: self.duplicate,
            reason: self.reason.deep_view(),
            deployment: self.deployment.deep_view(),
        }
    }
}

/// The deployment that an event asks for.
#[derive(Debug)]
pub struct Event {
    pub project_id: String,
    pub event_key: String,
    pub tag: String,
    pub sha: String,
}

/// The deployment that an event asks for, with the characters of its texts.
#[verifier::ext_equal]
pub struct EventView {
    pub project_id: Seq<char>,
    pub event_key: Seq<char>,
    pub tag: Seq<char>,
    pub sha: Seq<char>,
}

impl DeepView for Event {
    type V = EventView;

    open spec fn deep_view(&self) -> EventView {
        EventView {
            project_id: self.project_id@,
            event_key: self.event_key@,
            tag: self.tag@,
            sha: self.sha@,
        }
    }
}

/// What a request is answered before anything is stored.
#[derive(Debug)]
pub enum Reception {
    /// It is answered at once.
    Answer(HookResponse),
    /// It asks for a deployment.
    Deploy(Event),
}

/// What a request is answered before anything is stored, with the characters of its texts.
pub enum ReceptionView {
    /// It is answered at once.
    Answer(HookResponseView),
    /// It asks for a deployment.
    Deploy(EventView),
}

impl DeepView for Reception {
    type V = ReceptionView;

    open spec fn deep_view(&self) -> ReceptionView {
        match self {
            Reception::Answer(response) => ReceptionView::Answer(response.deep_view()),
            Reception::Deploy(event) => ReceptionView::Deploy(event.deep_view()),
        }
    }
}

/// The byte of a list at an index, or 0 beyond its end.
pub open spec fn byte_at(bytes: Seq<u8>, index: int) -> u8 {
    if index < bytes.len() {
        bytes[index]
    } else {
        0
    }
}

fn byte_or_zero(bytes: &[u8], index: usize) -> (byte: u8)
    ensures
        byte == byte_at(bytes@, index as int),
{
    if index < bytes.len() {
        bytes[index]
    } else {
        0
    }
}

/// Whether two lists of bytes are the same. All bytes of the longer one are looked at, whatever
/// they are.
pub fn constant_time_equal(left: &[u8], right: &[u8]) -> (equal: bool)
    ensures
        equal == (left@ == right@),
{
    let left_len: usize = left.len();
    let right_len: usize = right.len();
    let maximum: usize = if left_len > right_len {
        left_len
    } else {
        right_len
    };
    let mut difference: usize = left_len ^ right_len;
    assert((left_len ^ right_len == 0) == (left_len == right_len)) by (bit_vector);
    let mut index: usize = 0;
    while index < maximum
        invariant
            index <= maximum,
            maximum >= left@.len(),
            maximum >= right@.len(),
            difference == 0 <==> left@.len() == right@.len() && forall|i: int|
                0 <= i < index ==> #[trigger] byte_at(left@, i) == byte_at(right@, i),
        decreases maximum - index,
    {
        let left_byte: u8 = byte_or_zero(left, index);
        let right_byte: u8 = byte_or_zero(right, index);
        let mixed: usize = (left_byte ^ right_byte) as usize;
        assert((left_byte ^ right_byte == 0) == (left_byte == right_byte)) by (bit_vector);
        let before: usize = difference;
        assert((before | mixed == 0) == (before == 0 && mixed == 0)) by (bit_vector);
        difference = before | mixed;
        assert(byte_at(left@, index as int) == left_byte);
        index += 1;
    }
    proof {
        if difference == 0 {
            assert forall|i: int| 0 <= i < left@.len() implies left@[i] == right@[i] by {
                assert(byte_at(left@, i) == byte_at(right@, i));
            }
            assert(left@ =~= right@);
        }
    }
    difference == 0
}

/// What is wrong with the token of a request.
pub open spec fn token_flaw(project: Project, token: Option<Vec<u8>>) -> Option<AppErrorView> {
    match token {
        None => Some(
            AppErrorView::Authentication { reason: "X-Gitee-Token header is required"@ },
        ),
        Some(token) => if token@ == vstd::utf8::encode_utf8(project.webhook_token@) {
            None
        } else {
            Some(
                AppErrorView::Authentication {
                    reason: "X-Gitee-Token does not match the configured project token"@,
                },
            )
        },
    }
}

/// Checks the token of a request.
pub fn authenticate(project: &Project, token: &Option<Vec<u8>>) -> (result: Result<(), AppError>)
    ensures
        match result {
            Ok(_) => token_flaw(*project, *token) is None,
            Err(error) => token_flaw(*project, *token) == Some(error@),
        },
{
    match token {
        None => Err(
            AppError::Authentication { reason: "X-Gitee-Token header is required".to_owned() },
        ),
        Some(token) => {
            let expected = project.webhook_token.expose().as_bytes();
            if constant_time_equal(token.as_slice(), expected) {
                Ok(())
            } else {
                Err(
                    AppError::Authentication {
                        reason: "X-Gitee-Token does not match the configured project token".to_owned(),
                    },
                )
            }
        },
    }
}

/// The error of an invalid request.
pub open spec fn refusal(reason: Seq<char>) -> Option<AppErrorView> {
    Some(AppErrorView::RequestValidation { reason })
}

/// What is wrong with a tag event for a project; the first of the faults, in the order in which
/// they are looked for.
pub open spec fn payload_flaw(project: Project, payload: GiteeTagPayload) -> Option<AppErrorView> {
    if payload.hook_name@ != TAG_HOOK_NAME@ {
        refusal(
            "hook_name must be "@ + str_debug(TAG_HOOK_NAME@) + ", got "@ + str_debug(
                payload.hook_name@,
            ),
        )
    } else if payload.created && payload.deleted {
        refusal("created and deleted cannot both be true"@)
    } else if payload.repository.full_name@ != project.repository_full_name@ {
        refusal(
            "repository.full_name must be "@ + str_debug(project.repository_full_name@) + ", got "@
                + str_debug(payload.repository.full_name@),
        )
    } else if !begins_with(payload.reference@, "refs/tags/"@) {
        refusal("ref "@ + str_debug(payload.reference@) + " is not a Tag ref"@)
    } else if tag_of(payload.reference@).len() == 0 {
        refusal("ref must contain a non-empty Tag name"@)
    } else if !lower_object_id(payload.after@) {
        refusal(
            "after must be a lowercase 40-character hexadecimal Git object ID, got "@ + str_debug(
                payload.after@,
            ),
        )
    } else if payload.created && payload.after@ == "0000000000000000000000000000000000000000"@ {
        refusal("created Tag after cannot be the all-zero Git object ID"@)
    } else {
        None
    }
}

/// The tag that a reference names.
pub open spec fn tag_of(reference: Seq<char>) -> Seq<char> {
    reference.skip("refs/tags/"@.len() as int)
}

/// Checks a tag event for a project.
pub fn validate_payload(project: &Project, payload: &GiteeTagPayload) -> (result: Result<
    (),
    AppError,
>)
    ensures
        match result {
            Ok(_) => payload_flaw(*project, *payload) is None,
            Err(error) => payload_flaw(*project, *payload) == Some(error@),
        },
{
    if !text_eq(payload.hook_name.as_str(), TAG_HOOK_NAME) {
        return Err(
            invalid_request(
                cat4(
                    "hook_name must be ",
                    debug_text(TAG_HOOK_NAME).as_str(),
                    ", got ",
                    debug_text(payload.hook_name.as_str()).as_str(),
                ),
            ),
        );
    }
    if payload.created && payload.deleted {
        return Err(invalid_request("created and deleted cannot both be true".to_owned()));
    }
    if !text_eq(
        payload.repository.full_name.as_str(),
        project.repository_full_name.as_str(),
    ) {
        return Err(
            invalid_request(
                cat4(
                    "repository.full_name must be ",
                    debug_text(project.repository_full_name.as_str()).as_str(),
                    ", got ",
                    debug_text(payload.repository.full_name.as_str()).as_str(),
                ),
            ),
        );
    }
    match strip_prefix(payload.reference.as_str(), "refs/tags/") {
        None => {
            return Err(
                invalid_request(
                    cat3(
                        "ref ",
                        debug_text(payload.reference.as_str()).as_str(),
                        " is not a Tag ref",
                    ),
                ),
            );
        },
        Some(tag) => {
            if tag.as_str().is_empty() {
                return Err(invalid_request("ref must contain a non-empty Tag name".to_owned()));
            }
        },
    }
    if !is_lower_object_id(payload.after.as_str()) {
        return Err(
            invalid_request(
                cat2(
                    "after must be a lowercase 40-character hexadecimal Git object ID, got ",
                    debug_text(payload.after.as_str()).as_str(),
                ),
            ),
        );
    }
    if payload.created && text_eq(
        payload.after.as_str(),
        "0000000000000000000000000000000000000000",
    ) {
        return Err(
            invalid_request("created Tag after cannot be the all-zero Git object ID".to_owned()),
        );
    }
    Ok(())
}

/// The answer to a request that is well and asks for nothing.
pub open spec fn ignored(reason: Seq<char>) -> HookResponseView {
    HookResponseView {
        ok: true,
        accepted: false,
        duplicate: false,
        reason: Some(reason),
        deployment: None,
    }
}

/// The answer to a request that is well and asks for nothing.
pub fn ignored_response(reason: &'static str) -> (response: HookResponse)
    ensures
        response.deep_view() == ignored(reason@),
{
    HookResponse {
        ok: true,
        accepted: false,
        duplicate: false,
        reason: Some(reason),
        deployment: None,
    }
}

/// The deployment that a tag event asks for. The key of the event is made of the project, the
/// reference and the object that it names.
pub open spec fn event_of(project: Project, payload: GiteeTagPayload) -> EventView {
    EventView {
        project_id: project.project_id@,
        event_key: "gitee:"@ + project.project_id@ + ":"@ + payload.reference@ + ":"@
            + payload.after@,
        tag: tag_of(payload.reference@),
        sha: payload.after@,
    }
}

/// What a tag event for a project is answered before anything is stored, given whether its tag
/// matches the pattern of the project.
pub open spec fn payload_reception(
    project: Project,
    payload: GiteeTagPayload,
    matched: bool,
) -> Result<ReceptionView, AppErrorView> {
    match payload_flaw(project, payload) {
        Some(error) => Err(error),
        None => if payload.deleted {
            Ok(ReceptionView::Answer(ignored("tagDeleted"@)))
        } else if !payload.created {
            Ok(ReceptionView::Answer(ignored("tagNotCreated"@)))
        } else if !matched {
            Ok(ReceptionView::Answer(ignored("tagPatternMismatch"@)))
        } else {
            Ok(ReceptionView::Deploy(event_of(project, payload)))
        },
    }
}

/// What a tag event for a project is answered before anything is stored, given whether its tag
/// matches the pattern of the project.
pub fn receive_payload(project: &Project, payload: &GiteeTagPayload, matched: bool) -> (result: Result<
    Reception,
    AppError,
>)
    ensures
        outcome(result) == payload_reception(*project, *payload, matched),
{
    match validate_payload(project, payload) {
        Err(error) => {
            return Err(error);
        },
        Ok(_) => {},
    }
    if payload.deleted {
        return Ok(Reception::Answer(ignored_response("tagDeleted")));
    }
    if !payload.created {
        return Ok(Reception::Answer(ignored_response("tagNotCreated")));
    }
    if !matched {
        return Ok(Reception::Answer(ignored_response("tagPatternMismatch")));
    }
    let tag = match strip_prefix(payload.reference.as_str(), "refs/tags/") {
        Some(tag) => tag,
        None => String::new(),
    };
    let event_key = cat6(
        "gitee:",
        project.project_id.as_str(),
        ":",
        payload.reference.as_str(),
        ":",
        payload.after.as_str(),
    );
    Ok(
        Reception::Deploy(
            Event {
                project_id: project.project_id.clone(),
                event_key,
                tag,
                sha: payload.after.clone(),
            },
        ),
    )
}

/// Whether the tag of an event matches the pattern of a project.
pub open spec fn tag_wanted(project: Project, payload: GiteeTagPayload) -> bool {
    pattern_match(project.tag_pattern@, tag_of(payload.reference@)) == Some(true)
}

/// What a request is answered before anything is stored. The token is checked before anything
/// else of the request is looked at; a ping is answered without looking at the body.
pub open spec fn reception(config: LoadedConfig, request: HookRequest) -> Result<
    ReceptionView,
    AppErrorView,
> {
    match project_with(config.projects@, request.project_id@) {
        None => Err(AppErrorView::ProjectNotFound { project_id: request.project_id@ }),
        Some(project) => match token_flaw(project, request.token) {
            Some(error) => Err(error),
            None => match request.ping {
                Header::Invalid { source } => Err(
                    AppErrorView::RequestValidation {
                        reason: "X-Gitee-Ping header is not valid ASCII: "@ + source@,
                    },
                ),
                Header::Text(ping) => if ping@ == "true"@ {
                    Ok(ReceptionView::Answer(ignored("ping"@)))
                } else if ping@ == "false"@ {
                    body_reception(project, request.body)
                } else {
                    Err(
                        AppErrorView::RequestValidation {
                            reason: "X-Gitee-Ping must be exactly \"true\", got "@ + str_debug(
                                ping@,
                            ),
                        },
                    )
                },
                Header::Absent => body_reception(project, request.body),
            },
        },
    }
}

/// What the body of an authenticated request that is no ping is answered.
pub open spec fn body_reception(project: Project, body: Body) -> Result<
    ReceptionView,
    AppErrorView,
> {
    match body {
        Body::TooLarge { reason } => Err(AppErrorView::RequestTooLarge { reason: reason@ }),
        Body::Rejected { reason } => Err(AppErrorView::RequestValidation { reason: reason@ }),
        Body::Malformed { source } => Err(
            AppErrorView::RequestValidation {
                reason: "request body must be a valid Gitee Tag WebHook JSON object: "@ + source@,
            },
        ),
        Body::Payload(payload) => payload_reception(
            project,
            payload,
            tag_wanted(project, payload),
        ),
    }
}

fn receive_body(project: &Project, body: Body) -> (result: Result<Reception, AppError>)
    ensures
        outcome(result) == body_reception(*project, body),
{
    match body {
        Body::TooLarge { reason } => Err(AppError::RequestTooLarge { reason }),
        Body::Rejected { reason } => Err(AppError::RequestValidation { reason }),
        Body::Malformed { source } => Err(
            invalid_request(
                cat2(
                    "request body must be a valid Gitee Tag WebHook JSON object: ",
                    source.as_str(),
                ),
            ),
        ),
        Body::Payload(payload) => {
            let matched = match strip_prefix(payload.reference.as_str(), "refs/tags/") {
                Some(tag) => tag_matches(project.tag_pattern.as_str(), tag.as_str()),
                None => false,
            };
            receive_payload(project, &payload, matched)
        },
    }
}

/// What a request is answered before anything is stored.
pub fn receive_hook(config: &LoadedConfig, request: HookRequest) -> (result: Result<
    Reception,
    AppError,
>)
    ensures
        outcome(result) == reception(*config, request),
{
    let HookRequest { project_id, token, ping, body } = request;
    let project = match config.project(project_id.as_str()) {
        Ok(project) => project,
        Err(error) => {
            return Err(error);
        },
    };
    match authenticate(project, &token) {
        Err(error) => {
            return Err(error);
        },
        Ok(_) => {},
    }
    match ping {
        Header::Invalid { source } => Err(
            invalid_request(cat2("X-Gitee-Ping header is not valid ASCII: ", source.as_str())),
        ),
        Header::Text(ping) => if text_eq(ping.as_str(), "true") {
            Ok(Reception::Answer(ignored_response("ping")))
        } else if text_eq(ping.as_str(), "false") {
            receive_body(project, body)
        } else {
            Err(
                invalid_request(
                    cat2(
                        "X-Gitee-Ping must be exactly \"true\", got ",
                        debug_text(ping.as_str()).as_str(),
                    ),
                ),
            )
        },
        Header::Absent => receive_body(project, body),
    }
}

/// The status and the answer to an event, given the deployment that it led to.
pub open spec fn event_answer(created: CreatedView) -> (u16, HookResponseView) {
    (
        if created.created {
            202
        } else {
            200
        },
        HookResponseView {
            ok: true,
            accepted: created.created,
            duplicate: !created.created,
            reason: None,
            deployment: Some(created.deployment),
        },
    )
}

/// The status and the answer to an event, given the deployment that it led to.
pub fn answer_event(created: CreatedDeployment) -> (answer: (u16, HookResponse))
    ensures
        answer.deep_view() == event_answer(created.deep_view()),
{
    let status: u16 = if created.created {
        202
    } else {
        200
    };
    (
        status,
        HookResponse {
            ok: true,
            accepted: created.created,
            duplicate: !created.created,
            reason: None,
            deployment: Some(created.deployment),
        },
    )
}

/// What a request changes and is answered, given the identifier and the time of a deployment
/// that it may lead to.
pub open spec fn hook(
    config: LoadedConfig,
    db: DatabaseView,
    request: HookRequest,
    id: Seq<char>,
    now: Seq<char>,
) -> (DatabaseView, Result<(u16, HookResponseView), AppErrorView>) {
    match reception(config, request) {
        Err(error) => (db, Err(error)),
        Ok(ReceptionView::Answer(response)) => (db, Ok((200, response))),
        Ok(ReceptionView::Deploy(event)) => {
            let (after, result) = db.webhook(
                event.project_id,
                event.event_key,
                event.tag,
                event.sha,
                id,
                now,
            );
            match result {
                Err(error) => (after, Err(error)),
                Ok(created) => (after, Ok(event_answer(created))),
            }
        },
    }
}

/// Receives a request: it is answered at once, or a deployment is queued.
pub fn gitee_hook(config: &LoadedConfig, database: &mut Database, request: HookRequest) -> (result:
    Result<(u16, HookResponse), AppError>)
    requires
        old(database).wf(),
    ensures
        final(database).wf(),
        exists|id: Seq<char>, now: Seq<char>|
            (reception(*config, request) matches Ok(ReceptionView::Deploy(_)) ==> uuid_text(id)
                && utc_millis(now)) && (final(database)@, outcome(result)) == #[trigger] hook(
                *config,
                old(database)@,
                request,
                id,
                now,
            ),
{
    let ghost before = database@;
    match receive_hook(config, request) {
        Err(error) => {
            assert((before, Err::<(u16, HookResponseView), AppErrorView>(error@)) == hook(
                *config,
                before,
                request,
                Seq::empty(),
                Seq::empty(),
            ));
            Err(error)
        },
        Ok(Reception::Answer(response)) => {
            assert((
                before,
                Ok::<(u16, HookResponseView), AppErrorView>((200, response.deep_view())),
            ) == hook(*config, before, request, Seq::empty(), Seq::empty()));
            Ok((200, response))
        },
        Ok(Reception::Deploy(event)) => {
            let result = database.create_webhook_deployment(
                event.project_id.as_str(),
                event.event_key.as_str(),
                event.tag.as_str(),
                event.sha.as_str(),
            );
            let ghost after = database@;
            let ghost (id, now) = choose|id: Seq<char>, now: Seq<char>|
                uuid_text(id) && utc_millis(now) && (
                    after,
                    outcome(result),
                ) == #[trigger] before.webhook(
                    event.project_id@,
                    event.event_key@,
                    event.tag@,
                    event.sha@,
                    id,
                    now,
                );
            let ghost known = hook(*config, before, request, id, now);
            match result {
                Err(error) => {
                    assert((after, Err::<(u16, HookResponseView), AppErrorView>(error@)) == known);
                    Err(error)
                },
                Ok(created) => {
                    let answer = answer_event(created);
                    assert((
                        after,
                        Ok::<(u16, HookResponseView), AppErrorView>(answer.deep_view()),
                    ) == known);
                    Ok(answer)
                },
            }
        },
    }
}

/// What the service says while its storage answers.
pub struct HealthResponse {
    pub ok: bool,
    pub status: &'static str,
}

/// What the service says of its health, given the value that its storage was asked for.
pub fn healthz(value: i64) -> (result: Result<HealthResponse, AppError>)
    ensures
        match result {
            Ok(response) => value == 1 && response.ok && response.status@ == "healthy"@,
            Err(error) => value != 1 && error@ == (AppErrorView::InvalidState {
                reason: "SQLite health query returned "@ + signed_decimal(value as int)
                    + ", expected 1"@,
            }),
        },
{
    match Database::health(value) {
        Ok(_) => Ok(HealthResponse { ok: true, status: "healthy" }),
        Err(error) => Err(error),
    }
}

/// A request without the token of its project is refused, whatever else it holds: as
/// unauthenticated where the project is configured, as unknown where it is not.
pub proof fn unauthenticated_requests_are_refused(
    config: LoadedConfig,
    db: DatabaseView,
    request: HookRequest,
    id: Seq<char>,
    now: Seq<char>,
)
    requires
        match project_with(config.projects@, request.project_id@) {
            None => true,
            Some(project) => match request.token {
                None => true,
                Some(token) => token@ != vstd::utf8::encode_utf8(project.webhook_token@),
            },
        },
    ensures
        hook(config, db, request, id, now).0 == db,
        hook(config, db, request, id, now).1 matches Err(error) && match project_with(
            config.projects@,
            request.project_id@,
        ) {
            Some(_) => error is Authentication && error.status_code() == 401,
            None => error is ProjectNotFound && error.status_code() == 404,
        },
{
}

/// A deployment is queued only for an authenticated tag event that creates a tag of the
/// configured repository which matches the pattern of the project, and for nothing else.
pub proof fn only_wanted_tags_are_deployed(
    config: LoadedConfig,
    db: DatabaseView,
    request: HookRequest,
    id: Seq<char>,
    now: Seq<char>,
)
    requires
        hook(config, db, request, id, now).0 != db,
    ensures
        project_with(config.projects@, request.project_id@) matches Some(project) && ({
            &&& token_flaw(project, request.token) is None
            &&& request.body matches Body::Payload(payload) && {
                &&& payload_flaw(project, payload) is None
                &&& payload.created && !payload.deleted
                &&& payload.repository.full_name@ == project.repository_full_name@
                &&& tag_wanted(project, payload)
                &&& lower_object_id(payload.after@)
            }
        }),
{
}

/// Repeating a request that was accepted answers it with the same deployment as a duplicate and
/// stores nothing.
pub proof fn a_repeated_request_is_a_duplicate(
    config: LoadedConfig,
    db: DatabaseView,
    request: HookRequest,
    id: Seq<char>,
    now: Seq<char>,
    again_id: Seq<char>,
    again_now: Seq<char>,
)
    requires
        db.valid(),
        hook(config, db, request, id, now).1 matches Ok(answer) && answer.1.deployment is Some,
    ensures
        ({
            let (after, result) = hook(config, db, request, id, now);
            let (again, repeated) = hook(config, after, request, again_id, again_now);
            &&& again == after
            &&& repeated matches Ok(answer) && answer.0 == 200 && answer.1.duplicate
                && !answer.1.accepted && answer.1.deployment == result->Ok_0.1.deployment
        }),
{
    if let Ok(ReceptionView::Deploy(event)) = reception(config, request) {
        an_event_is_deployed_once(
            db,
            event.project_id,
            event.event_key,
            event.tag,
            event.sha,
            id,
            now,
            event.tag,
            event.sha,
            again_id,
            again_now,
        );
    }
}

} // verus!

//! Server actions: the context they run in and the result they return.
use vstd::prelude::*;
use crate::actions::error::ActionError;
use crate::markup::context::{grants, has_permission_in, strings_view};
use crate::strmap::StrMap;
use crate::text::to_owned_string;

verus! {

/// Current time as seconds since the Unix epoch (`chrono::Utc::now().timestamp()`).
/// The clock is never before the epoch and within chrono's date range, so the
/// value lies between 0 and 10^13; which value comes back is not stated.
#[verifier::external_body]
pub(crate) fn now_timestamp() -> (t: i64)
    ensures
        0 <= t < 10_000_000_000_000,
{
    chrono::Utc::now().timestamp()
}

pub open spec fn is_lower_hex(c: char) -> bool {
    ('0' <= c && c <= '9') || ('a' <= c && c <= 'f')
}

/// A fresh random version-4 UUID in its hyphenated lower-case text form
/// (`uuid::Uuid::new_v4().to_string()`): 36 characters, hyphens at positions
/// 8, 13, 18 and 23, lower-case hex digits elsewhere, version digit `4` at 14.
/// Which UUID comes back is not stated.
#[verifier::external_body]
pub(crate) fn new_uuid_v4() -> (s: String)
    ensures
        s@.len() == 36,
        forall|i: int| 0 <= i < 36 ==> if i == 8 || i == 13 || i == 18 || i == 23 {
            #[trigger] s@[i] == '-'
        } else {
            is_lower_hex(s@[i])
        },
        s@[14] == '4',
{
    uuid::Uuid::new_v4().to_string()
}

/// What the server returns after executing an action.
#[derive(Clone, Debug)]
pub enum ActionOutput {
    /// Replace the page with a new render.
    Replace { page_html: String },
    /// HTTP redirect.
    Redirect { url: String },
    /// Render error page / inline error.
    Error { message: String, code: u16 },
    /// Partial fragment update.
    Fragment { target_id: String, html: String },
    /// Hand off to a streaming endpoint.
    Stream { url: String },
    /// File download.
    Download { filename: String, content_type: String, data: Vec<u8> },
}

#[derive(Clone)]
pub struct AuditEvent {
    pub action: String,
    pub user_id: Option<String>,
    pub fields: StrMap,
    pub timestamp: i64,
    pub outcome: String,
}

/// Result of executing a server action.
#[derive(Clone)]
pub struct ActionResult {
    pub action_id: String,
    pub outcome: ActionOutput,
    pub timestamp: i64,
    pub audit_event: Option<AuditEvent>,
}

/// The shape of an action id: a hyphenated UUID.
pub open spec fn is_action_id(s: Seq<char>) -> bool {
    s.len() == 36 && s[8] == '-' && s[13] == '-' && s[18] == '-' && s[23] == '-'
}

/// Context passed to every action handler.
#[derive(Clone, Debug)]
pub struct ActionContext {
    pub session_id: String,
    pub user_id: Option<String>,
    pub permissions: Vec<String>,
    pub client_ip: String,
    pub audit: bool,
    pub idempotency_key: Option<String>,
}

impl ActionContext {
    pub fn new() -> (c: Self)
        ensures
            c.session_id@.len() == 0,
            c.user_id is None,
            c.permissions@.len() == 0,
            c.client_ip@.len() == 0,
            !c.audit,
            c.idempotency_key is None,
    {
        ActionContext {
            session_id: String::new(),
            user_id: None,
            permissions: Vec::new(),
            client_ip: String::new(),
            audit: false,
            idempotency_key: None,
        }
    }

    pub fn with_session(self, id: &str) -> (c: Self)
        ensures
            c == (ActionContext { session_id: c.session_id, ..self }),
            c.session_id@ == id@,
    {
        ActionContext { session_id: to_owned_string(id), ..self }
    }

    pub fn with_user(self, uid: &str, perms: Vec<String>) -> (c: Self)
        ensures
            c == (ActionContext { user_id: c.user_id, permissions: perms, ..self }),
            c.user_id is Some && c.user_id->0@ == uid@,
    {
        ActionContext { user_id: Some(to_owned_string(uid)), permissions: perms, ..self }
    }

    pub fn with_ip(self, ip: &str) -> (c: Self)
        ensures
            c == (ActionContext { client_ip: c.client_ip, ..self }),
            c.client_ip@ == ip@,
    {
        ActionContext { client_ip: to_owned_string(ip), ..self }
    }

    pub fn has_permission(&self, perm: &str) -> (b: bool)
        ensures
            b == grants(strings_view(self.permissions@), perm@),
    {
        has_permission_in(&self.permissions, perm)
    }

    pub fn require_auth(&self) -> (r: Result<&str, ActionError>)
        ensures
            match self.user_id {
                Some(u) => r is Ok && r->Ok_0@ == u@,
                None => r == Err::<&str, ActionError>(ActionError::Unauthorized),
            },
    {
        match &self.user_id {
            Some(u) => Ok(u.as_str()),
            None => Err(ActionError::Unauthorized),
        }
    }
}

impl Default for ActionContext {
    fn default() -> (c: Self)
        ensures
            c.session_id@.len() == 0,
            c.user_id is None,
            c.permissions@.len() == 0,
            c.client_ip@.len() == 0,
            !c.audit,
            c.idempotency_key is None,
    {
        ActionContext::new()
    }
}

/// Builder for ActionResult.
pub struct Action;

impl Action {
    fn with_outcome(outcome: ActionOutput) -> (r: ActionResult)
        ensures
            r.outcome == outcome,
            is_action_id(r.action_id@),
            r.audit_event is None,
            0 <= r.timestamp,
    {
        let id = new_uuid_v4();
        proof {
            assert(id@[8] == '-' && id@[13] == '-' && id@[18] == '-' && id@[23] == '-');
        }
        ActionResult { action_id: id, outcome, timestamp: now_timestamp(), audit_event: None }
    }

    pub fn replace(html: &str) -> (r: ActionResult)
        ensures
            r.outcome is Replace && r.outcome->page_html@ == html@,
            is_action_id(r.action_id@),
            r.audit_event is None,
            0 <= r.timestamp,
    {
        Self::with_outcome(ActionOutput::Replace { page_html: to_owned_string(html) })
    }

    pub fn redirect(url: &str) -> (r: ActionResult)
        ensures
            r.outcome is Redirect && r.outcome->Redirect_url@ == url@,
            is_action_id(r.action_id@),
            r.audit_event is None,
            0 <= r.timestamp,
    {
        Self::with_outcome(ActionOutput::Redirect { url: to_owned_string(url) })
    }

    pub fn error(message: &str, code: u16) -> (r: ActionResult)
        ensures
            r.outcome is Error && r.outcome->message@ == message@ && r.outcome->code == code,
            is_action_id(r.action_id@),
            r.audit_event is None,
            0 <= r.timestamp,
    {
        Self::with_outcome(ActionOutput::Error { message: to_owned_string(message), code })
    }

    pub fn fragment(target_id: &str, html: &str) -> (r: ActionResult)
        ensures
            r.outcome is Fragment && r.outcome->target_id@ == target_id@ && r.outcome->Fragment_html@ == html@,
            is_action_id(r.action_id@),
            r.audit_event is None,
            0 <= r.timestamp,
    {
        Self::with_outcome(ActionOutput::Fragment { target_id: to_owned_string(target_id), html: to_owned_string(html) })
    }
}

impl ActionResult {
    pub fn with_audit(self, event: AuditEvent) -> (r: Self)
        ensures
            r == (ActionResult { audit_event: Some(event), ..self }),
    {
        ActionResult { audit_event: Some(event), ..self }
    }
}

} // verus!

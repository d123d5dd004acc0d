//! The webhook handler core: signature check, event envelope reading, and
//! the order table update, as one verified decision function.

use vstd::prelude::*;
use crate::jsonio::{is_json, json_is_valid, json_string_at, json_string_lookup};
use crate::sig::{signature_matches, verify_signature};
use crate::store::OrderStore;

verus! {

/// What a webhook request led to.
pub enum WebhookOutcome {
    /// No signature header was given: answered 400, nothing read.
    MissingHeader,
    /// The signature does not match the body: answered 403.
    BadSignature,
    /// The body is not a JSON document: answered 400.
    MalformedBody,
    /// A status change without a string `data.uuid` or `data.status`:
    /// answered 400.
    MissingField,
    /// A well-formed request that is no status change: acknowledged, the
    /// table untouched.
    Ignored,
    /// A status change that was applied to the table.
    Updated { uuid: String, status: String },
}

/// The outcome at the specification level.
pub enum WebhookStep {
    MissingHeader,
    BadSignature,
    MalformedBody,
    MissingField,
    Ignored,
    Updated { uuid: Seq<char>, status: Seq<char> },
}

impl View for WebhookOutcome {
    type V = WebhookStep;

    open spec fn view(&self) -> WebhookStep {
        match self {
            WebhookOutcome::MissingHeader => WebhookStep::MissingHeader,
            WebhookOutcome::BadSignature => WebhookStep::BadSignature,
            WebhookOutcome::MalformedBody => WebhookStep::MalformedBody,
            WebhookOutcome::MissingField => WebhookStep::MissingField,
            WebhookOutcome::Ignored => WebhookStep::Ignored,
            WebhookOutcome::Updated { uuid, status } => WebhookStep::Updated {
                uuid: uuid@,
                status: status@,
            },
        }
    }
}

/// The HTTP status code each outcome is answered with: signature failures
/// are 403, other client errors 400, everything else 200.
pub open spec fn status_code_of(o: WebhookStep) -> u16 {
    match o {
        WebhookStep::MissingHeader => 400,
        WebhookStep::BadSignature => 403,
        WebhookStep::MalformedBody => 400,
        WebhookStep::MissingField => 400,
        WebhookStep::Ignored => 200,
        WebhookStep::Updated { .. } => 200,
    }
}

impl WebhookOutcome {
    /// The HTTP status code this outcome is answered with.
    pub fn status_code(&self) -> (c: u16)
        ensures
            c == status_code_of(self@),
    {
        match self {
            WebhookOutcome::MissingHeader => 400,
            WebhookOutcome::BadSignature => 403,
            WebhookOutcome::MalformedBody => 400,
            WebhookOutcome::MissingField => 400,
            WebhookOutcome::Ignored => 200,
            WebhookOutcome::Updated { .. } => 200,
        }
    }
}

/// The whole webhook decision: from the secret, the optional signature
/// header, the raw body and the current table to the outcome and the new
/// table.
pub open spec fn webhook_step(
    secret: Seq<u8>,
    sig: Option<Seq<char>>,
    body: Seq<char>,
    store: Map<Seq<char>, Seq<char>>,
) -> (WebhookStep, Map<Seq<char>, Seq<char>>) {
    match sig {
        None => (WebhookStep::MissingHeader, store),
        Some(sv) => if !signature_matches(secret, body, sv) {
            (WebhookStep::BadSignature, store)
        } else if !is_json(body) {
            (WebhookStep::MalformedBody, store)
        } else if json_string_at(body, "/event"@) != Some("order.status.changed"@) {
            (WebhookStep::Ignored, store)
        } else {
            match (json_string_at(body, "/data/uuid"@), json_string_at(body, "/data/status"@)) {
                (Some(u), Some(st)) => (
                    WebhookStep::Updated { uuid: u, status: st },
                    store.insert(u, st),
                ),
                _ => (WebhookStep::MissingField, store),
            }
        },
    }
}

/// Handles one webhook request against the order table: verifies the
/// signature, reads the event envelope, and applies a status change.
pub fn process_webhook(
    store: &mut OrderStore,
    secret: &[u8],
    signature: Option<&str>,
    body: &str,
) -> (r: WebhookOutcome)
    requires
        old(store).wf(),
    ensures
        final(store).wf(),
        ({
            let sv = match signature {
                Some(s) => Some(s@),
                None => None::<Seq<char>>,
            };
            (r@, final(store)@) == webhook_step(secret@, sv, body@, old(store)@)
        }),
{
    let sig = match signature {
        None => {
            return WebhookOutcome::MissingHeader;
        },
        Some(s) => s,
    };
    if !verify_signature(secret, body, sig) {
        return WebhookOutcome::BadSignature;
    }
    if !json_is_valid(body) {
        return WebhookOutcome::MalformedBody;
    }
    let event = json_string_lookup(body, "/event");
    let is_status_changed = match &event {
        Some(ev) => {
            let target = "order.status.changed".to_owned();
            *ev == target
        },
        None => false,
    };
    if !is_status_changed {
        return WebhookOutcome::Ignored;
    }
    let uuid_opt = json_string_lookup(body, "/data/uuid");
    let status_opt = json_string_lookup(body, "/data/status");
    match (uuid_opt, status_opt) {
        (Some(uuid), Some(status)) => {
            store.upsert(uuid.clone(), status.clone());
            WebhookOutcome::Updated { uuid, status }
        },
        _ => WebhookOutcome::MissingField,
    }
}

/// The acknowledgment body returned for an accepted webhook request.
pub fn webhook_ack_json() -> (r: String)
    ensures
        r@ == "{\"status\":\"Webhook received successfully\"}"@,
{
    "{\"status\":\"Webhook received successfully\"}".to_owned()
}

/// A repeated status update for one id keeps only the last status and puts
/// the id in the key set once: it never creates a second entry.
pub proof fn lemma_last_write_wins(
    store: Map<Seq<char>, Seq<char>>,
    uuid: Seq<char>,
    first: Seq<char>,
    second: Seq<char>,
)
    ensures
        store.insert(uuid, first).insert(uuid, second) == store.insert(uuid, second),
        store.insert(uuid, first).dom() == store.dom().insert(uuid),
{
    assert(store.insert(uuid, first).insert(uuid, second) =~= store.insert(uuid, second));
    assert(store.insert(uuid, first).dom() =~= store.dom().insert(uuid));
}

/// A request whose signature is wrong never changes the table and is
/// answered 403.
pub proof fn lemma_bad_signature_rejected(
    secret: Seq<u8>,
    sig: Seq<char>,
    body: Seq<char>,
    store: Map<Seq<char>, Seq<char>>,
)
    requires
        !signature_matches(secret, body, sig),
    ensures
        webhook_step(secret, Some(sig), body, store) == (WebhookStep::BadSignature, store),
        status_code_of(webhook_step(secret, Some(sig), body, store).0) == 403,
{
}

/// A correctly signed request whose event is anything but a status change
/// is acknowledged with 200 and leaves the table unchanged.
pub proof fn lemma_other_event_ignored(
    secret: Seq<u8>,
    sig: Seq<char>,
    body: Seq<char>,
    store: Map<Seq<char>, Seq<char>>,
)
    requires
        signature_matches(secret, body, sig),
        is_json(body),
        json_string_at(body, "/event"@) != Some("order.status.changed"@),
    ensures
        webhook_step(secret, Some(sig), body, store) == (WebhookStep::Ignored, store),
        status_code_of(webhook_step(secret, Some(sig), body, store).0) == 200,
{
}

/// A correctly signed status change with string `data.uuid` and
/// `data.status` inserts or overwrites exactly that record and is answered
/// 200.
pub proof fn lemma_status_change_applied(
    secret: Seq<u8>,
    sig: Seq<char>,
    body: Seq<char>,
    store: Map<Seq<char>, Seq<char>>,
    uuid: Seq<char>,
    status: Seq<char>,
)
    requires
        signature_matches(secret, body, sig),
        is_json(body),
        json_string_at(body, "/event"@) == Some("order.status.changed"@),
        json_string_at(body, "/data/uuid"@) == Some(uuid),
        json_string_at(body, "/data/status"@) == Some(status),
    ensures
        webhook_step(secret, Some(sig), body, store) == (
            WebhookStep::Updated { uuid, status },
            store.insert(uuid, status),
        ),
        status_code_of(webhook_step(secret, Some(sig), body, store).0) == 200,
{
}

} // verus!

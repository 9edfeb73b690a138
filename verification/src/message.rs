//! Outbound message construction: resolve each of sender address, recipient
//! address and sender display name from the request when supplied and from
//! the configured defaults otherwise, compose the display form of the
//! sender, and reject addresses that fail mailbox syntax validation.

use vstd::prelude::*;
use vstd::string::StringExecFns;

use crate::errors::EmailError;
use crate::settings::EmailSettings;

verus! {

/// The payload of one send request. Sender, recipient and display name may
/// be empty, which means "use the configured default"; subject and body are
/// taken verbatim and may be empty.
pub struct EmailRequest {
    /// Sender address, or empty for the configured default.
    pub from: String,
    /// Recipient address, or empty for the configured default.
    pub to: String,
    /// Sender display name, or empty for the configured default.
    pub sender_name: String,
    /// Subject line, copied verbatim.
    pub subject: String,
    /// Message body, copied verbatim.
    pub body: String,
}

/// A transport-ready message: immutable once built, handed to the transport
/// collaborator and then discarded.
#[derive(Debug)]
pub struct OutboundMessage {
    /// The sender in display form, `name <address>`.
    pub from_display: String,
    /// The recipient address.
    pub to: String,
    /// Subject line.
    pub subject: String,
    /// Message body.
    pub body: String,
}

/// A request field when it is non-empty, and the configured default when the
/// request leaves it empty.
pub open spec fn resolved(field: Seq<char>, default: Seq<char>) -> Seq<char> {
    if field.len() == 0 {
        default
    } else {
        field
    }
}

/// The display form of the sender: `name <address>`.
pub open spec fn display_from_spec(name: Seq<char>, addr: Seq<char>) -> Seq<char> {
    name + " <"@ + addr + ">"@
}

/// The effective sender address of a request under given defaults.
pub open spec fn effective_from(req: EmailRequest, defaults: EmailSettings) -> Seq<char> {
    resolved(req.from@, defaults.email_from@)
}

/// The effective recipient address of a request under given defaults.
pub open spec fn effective_to(req: EmailRequest, defaults: EmailSettings) -> Seq<char> {
    resolved(req.to@, defaults.email_to@)
}

/// The effective sender display name of a request under given defaults.
pub open spec fn effective_sender_name(req: EmailRequest, defaults: EmailSettings) -> Seq<char> {
    resolved(req.sender_name@, defaults.sender_name@)
}

/// The effective sender in display form.
pub open spec fn effective_display_from(req: EmailRequest, defaults: EmailSettings) -> Seq<char> {
    display_from_spec(effective_sender_name(req, defaults), effective_from(req, defaults))
}

/// Message construction succeeds: both the display form of the sender and
/// the effective recipient parse as mailboxes.
pub open spec fn builds_ok(req: EmailRequest, defaults: EmailSettings) -> bool {
    mailbox_ok(effective_display_from(req, defaults)) && mailbox_ok(effective_to(req, defaults))
}

/// Default-resolution law: a request field left empty resolves to the
/// configured default, and a non-empty field overrides it — each of the
/// three optional fields independently of the others.
pub proof fn lemma_defaults_and_overrides(req: EmailRequest, defaults: EmailSettings)
    ensures
        req.from@.len() == 0 ==> effective_from(req, defaults) == defaults.email_from@,
        req.from@.len() > 0 ==> effective_from(req, defaults) == req.from@,
        req.to@.len() == 0 ==> effective_to(req, defaults) == defaults.email_to@,
        req.to@.len() > 0 ==> effective_to(req, defaults) == req.to@,
        req.sender_name@.len() == 0 ==> effective_sender_name(req, defaults)
            == defaults.sender_name@,
        req.sender_name@.len() > 0 ==> effective_sender_name(req, defaults) == req.sender_name@,
{
}

/// Whether a string parses as a mailbox (`address` or `name <address>`).
pub uninterp spec fn mailbox_ok(s: Seq<char>) -> bool;

/// Relies on lettre's mailbox parser (`FromStr` for
/// `lettre::message::Mailbox`): whether a string parses as a mailbox is a
/// function of its characters alone.
#[verifier::external_body]
fn parses_as_mailbox(s: &str) -> (r: bool)
    ensures
        r == mailbox_ok(s@),
{
    s.parse::<lettre::message::Mailbox>().is_ok()
}

/// The field itself when non-empty, the default otherwise.
fn resolve_field<'a>(value: &'a String, default: &'a String) -> (r: &'a String)
    ensures
        r@ == resolved(value@, default@),
{
    if value.as_str().is_empty() {
        default
    } else {
        value
    }
}

/// Build the transport-ready message for a request under the configured
/// defaults: resolve each optional field, compose the sender's display form,
/// and validate both addresses. Construction fails with
/// `AddressFormatError` exactly when the sender's display form or the
/// effective recipient fails mailbox validation.
pub fn build_message(req: &EmailRequest, defaults: &EmailSettings) -> (r: Result<
    OutboundMessage,
    EmailError,
>)
    ensures
        match r {
            Ok(m) => builds_ok(*req, *defaults) && m.from_display@ == effective_display_from(
                *req,
                *defaults,
            ) && m.to@ == effective_to(*req, *defaults) && m.subject@ == req.subject@ && m.body@
                == req.body@,
            Err(e) => !builds_ok(*req, *defaults) && e == EmailError::AddressFormatError,
        },
{
    let sender_name = resolve_field(&req.sender_name, &defaults.sender_name);
    let from = resolve_field(&req.from, &defaults.email_from);
    let to = resolve_field(&req.to, &defaults.email_to);
    let mut from_display: String = sender_name.clone();
    from_display.append(" <");
    from_display.append(from.as_str());
    from_display.append(">");
    proof {
        assert(from_display@ =~= effective_display_from(*req, *defaults));
    }
    if !parses_as_mailbox(from_display.as_str()) {
        return Err(EmailError::AddressFormatError);
    }
    if !parses_as_mailbox(to.as_str()) {
        return Err(EmailError::AddressFormatError);
    }
    Ok(
        OutboundMessage {
            from_display,
            to: to.clone(),
            subject: req.subject.clone(),
            body: req.body.clone(),
        },
    )
}

} // verus!

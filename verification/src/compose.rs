//! A message that is being written.
use crate::dto;
use crate::dto::{Attached, Draft};
use crate::recipients;
use crate::text;
use vstd::prelude::*;
use vstd::string::*;

verus! {

/// What the composition window has gathered. The fields of recipients are kept as typed.
#[derive(Debug)]
pub struct Compose {
    /// The account that sends.
    pub account: i64,
    pub to: String,
    pub cc: String,
    pub bcc: String,
    pub subject: String,
    pub text: String,
    /// The message that is answered, where one is.
    pub in_reply_to: Option<String>,
    pub references: Vec<String>,
    pub attachments: Vec<Attached>,
    /// Whether the signature of the account is added.
    pub sign: bool,
    /// The draft that this window comes from, or has already made.
    pub draft: Option<i64>,
}

/// Whether a message is blank: nothing in it but the wish to sign.
pub open spec fn is_blank(c: Compose) -> bool {
    &&& c.to@ == ""@
    &&& c.cc@ == ""@
    &&& c.bcc@ == ""@
    &&& c.subject@ == ""@
    &&& c.text@ == ""@
    &&& c.in_reply_to is None
    &&& c.references@.len() == 0
    &&& c.attachments@.len() == 0
    &&& c.sign
    &&& c.draft is None
}

/// Whether two messages say the same.
pub open spec fn same_compose(a: Compose, b: Compose) -> bool {
    &&& a == (Compose { references: a.references, attachments: a.attachments, ..b })
    &&& a.references@ == b.references@
    &&& a.attachments@ == b.attachments@
}

/// The message that a draft was, field by field as it was typed.
pub open spec fn of_draft(draft: Draft) -> Compose {
    Compose {
        account: draft.account,
        to: draft.to,
        cc: draft.cc,
        bcc: draft.bcc,
        subject: draft.subject,
        text: draft.body,
        in_reply_to: draft.in_reply_to,
        references: draft.references,
        attachments: draft.attachments,
        sign: draft.sign,
        draft: draft.id,
    }
}

/// Whether a message has at least one recipient, visible or not.
pub open spec fn sendable(c: Compose) -> bool {
    ||| recipients::recipients_of(c.to@).len() > 0
    ||| recipients::recipients_of(c.cc@).len() > 0
    ||| recipients::recipients_of(c.bcc@).len() > 0
}

impl Default for Compose {
    /// A blank message: everything is empty, but the signature is added.
    fn default() -> (r: Compose)
        ensures
            r.account == 0,
            is_blank(r),
    {
        Compose {
            account: 0,
            to: "".to_owned(),
            cc: "".to_owned(),
            bcc: "".to_owned(),
            subject: "".to_owned(),
            text: "".to_owned(),
            in_reply_to: None,
            references: Vec::new(),
            attachments: Vec::new(),
            sign: true,
            draft: None,
        }
    }
}

impl Compose {
    /// Cuts a field of addresses at its commas and semicolons, without the empty pieces.
    pub fn recipients(field: &str) -> (r: Vec<String>)
        ensures
            text::texts(r@) == recipients::recipients_of(field@),
    {
        recipients::recipients(field)
    }

    /// Whether there is something to try to send: a recipient is enough.
    pub fn is_sendable(&self) -> (r: bool)
        ensures
            r == sendable(*self),
    {
        let to = recipients::recipients(self.to.as_str());
        let cc = recipients::recipients(self.cc.as_str());
        let bcc = recipients::recipients(self.bcc.as_str());
        assert(text::texts(to@).len() == to.len());
        assert(text::texts(cc@).len() == cc.len());
        assert(text::texts(bcc@).len() == bcc.len());
        to.len() > 0 || cc.len() > 0 || bcc.len() > 0
    }

    /// The same message.
    pub fn copy(&self) -> (r: Compose)
        ensures
            same_compose(r, *self),
    {
        Compose {
            account: self.account,
            to: self.to.clone(),
            cc: self.cc.clone(),
            bcc: self.bcc.clone(),
            subject: self.subject.clone(),
            text: self.text.clone(),
            in_reply_to: text::copy_opt(&self.in_reply_to),
            references: text::copy_list(&self.references),
            attachments: dto::copy_attached(&self.attachments),
            sign: self.sign,
            draft: self.draft,
        }
    }

    /// The message that a draft was, as it was typed.
    pub fn reopened(draft: &Draft) -> (r: Compose)
        ensures
            same_compose(r, of_draft(*draft)),
    {
        Compose {
            account: draft.account,
            to: draft.to.clone(),
            cc: draft.cc.clone(),
            bcc: draft.bcc.clone(),
            subject: draft.subject.clone(),
            text: draft.body.clone(),
            in_reply_to: text::copy_opt(&draft.in_reply_to),
            references: text::copy_list(&draft.references),
            attachments: dto::copy_attached(&draft.attachments),
            sign: draft.sign,
            draft: draft.id,
        }
    }
}

} // verus!

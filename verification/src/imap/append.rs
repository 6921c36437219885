//! The `APPEND` command: whether it goes ahead, and what is answered
//! once the messages were handed to the store.

use vstd::prelude::*;
use vstd::string::StringExecFns;

verus! {

/// A message that was appended: its IMAP uid and its document id.
#[derive(Clone, Copy, Debug, PartialEq, Eq, Structural)]
pub struct ImapUidToId {
    pub uid: u32,
    pub id: u32,
}

/// A mailbox of an account.
#[derive(Clone, Copy, Debug, PartialEq, Eq, Structural)]
pub struct MailboxId {
    pub account_id: u32,
    pub mailbox_id: u32,
}

/// Why the store did not take a message.
#[derive(Clone, Copy, Debug, PartialEq, Eq, Structural)]
pub enum IngestError {
    /// The account is over its quota.
    Quota,
    /// The organization is over its quota.
    TenantQuota,
    /// Anything else.
    Other,
}

/// The response code of a status response.
#[derive(Debug, PartialEq, Eq)]
pub enum ResponseCode {
    TryCreate,
    NoPerm,
    OverQuota,
    AppendUid { uid_validity: u32, uids: Vec<u32> },
}

/// An `APPEND` that is turned down: why, and the response code.
#[derive(Debug)]
pub struct AppendError {
    pub details: String,
    pub code: ResponseCode,
}

/// An IMAP session, as far as `APPEND` looks at it.
#[derive(Debug)]
pub struct Session {
    /// Whether the client asked for `QRESYNC`.
    pub is_qresync: bool,
    /// The mailbox that is selected.
    pub selected: Option<MailboxId>,
}

/// What is done once all messages of an `APPEND` are in the store.
#[derive(Debug)]
pub struct Appended {
    /// The change id whose modification sequence is announced first.
    pub announce: Option<u64>,
    /// Whether the selected mailbox takes the new messages in.
    pub update_selected: bool,
    /// The response code of the answer.
    pub code: Option<ResponseCode>,
}

/// Why an `APPEND` is turned down before any message is stored, if it
/// is: the mailbox does not exist, or the account may not add to it.
pub open spec fn refusal(mailbox: Option<MailboxId>, may_append: bool) -> Option<
    (Seq<char>, ResponseCode),
> {
    if mailbox is None {
        Some(("Mailbox does not exist."@, ResponseCode::TryCreate))
    } else if !may_append {
        Some(
            (
                "You do not have the required permissions to append messages to this mailbox."@,
                ResponseCode::NoPerm,
            ),
        )
    } else {
        None
    }
}

/// What is added to the error of a message that the store did not take:
/// the details, for the errors that are about quota.
pub open spec fn quota_details(error: IngestError) -> Option<Seq<char>> {
    match error {
        IngestError::Quota => Some("Disk quota exceeded."@),
        IngestError::TenantQuota => Some("Organization disk quota exceeded."@),
        IngestError::Other => None,
    }
}

/// The uids of the appended messages, in order.
pub open spec fn uids_of(created: Seq<ImapUidToId>) -> Seq<u32> {
    Seq::new(created.len(), |i: int| created[i].uid)
}

/// A number, or 0 where there is none.
pub open spec fn or_zero(number: Option<u64>) -> u64 {
    match number {
        Some(number) => number,
        None => 0,
    }
}

impl Session {
    /// Whether what is done after an `APPEND` is right. Without new
    /// messages nothing is done. With them, the selected mailbox takes
    /// them in if it is the one appended to; the last change is
    /// announced before that if the client asked for `QRESYNC`; and the
    /// answer names the mailbox's uid validity, 0 if it is not known,
    /// and the uids of the new messages.
    pub open spec fn appended(
        self,
        done: Appended,
        created: Seq<ImapUidToId>,
        last_change_id: Option<u64>,
        mailbox: MailboxId,
        uid_validity: Option<u32>,
    ) -> bool {
        if created.len() == 0 {
            done.announce is None && !done.update_selected && done.code is None
        } else {
            &&& done.update_selected == (self.selected == Some(mailbox))
            &&& done.announce == if self.is_qresync && self.selected == Some(mailbox) {
                Some(or_zero(last_change_id))
            } else {
                None
            }
            &&& done.code matches Some(ResponseCode::AppendUid { uid_validity: validity, uids })
                && uids@ == uids_of(created) && validity == match uid_validity {
                Some(validity) => validity,
                None => 0u32,
            }
        }
    }

    /// Decides whether an `APPEND` goes ahead: `mailbox` is the mailbox
    /// of the name that the command gives, if there is one, and
    /// `may_append` whether the account may add messages to it.
    pub fn handle_append(&self, mailbox: Option<MailboxId>, may_append: bool) -> (target: Result<
        MailboxId,
        AppendError,
    >)
        ensures
            match refusal(mailbox, may_append) {
                Some((details, code)) => target matches Err(error) && error.details@ == details
                    && error.code == code,
                None => target matches Ok(found) && Some(found) == mailbox,
            },
    {
        match mailbox {
            None => Err(
                AppendError {
                    details: String::from_str("Mailbox does not exist."),
                    code: ResponseCode::TryCreate,
                },
            ),
            Some(mailbox) => {
                if may_append {
                    Ok(mailbox)
                } else {
                    Err(
                        AppendError {
                            details: String::from_str(
                                "You do not have the required permissions to append messages to this mailbox.",
                            ),
                            code: ResponseCode::NoPerm,
                        },
                    )
                }
            },
        }
    }

    /// Tells what is added to the error of a message that the store did
    /// not take. With details the response code is `OverQuota`.
    pub fn ingest_error_details(&self, error: IngestError) -> (details: Option<String>)
        ensures
            crate::compare::option_view(details) == quota_details(error),
    {
        match error {
            IngestError::Quota => Some(String::from_str("Disk quota exceeded.")),
            IngestError::TenantQuota => Some(String::from_str("Organization disk quota exceeded.")),
            IngestError::Other => None,
        }
    }

    /// Decides what is done once all messages of an `APPEND` are in the
    /// store: `created` are the new messages, `last_change_id` the
    /// change that the last of them made, `mailbox` the mailbox appended
    /// to, and `uid_validity` that mailbox's, if it is known.
    pub fn append_messages(
        &self,
        created: &Vec<ImapUidToId>,
        last_change_id: Option<u64>,
        mailbox: MailboxId,
        uid_validity: Option<u32>,
    ) -> (done: Appended)
        ensures
            self.appended(done, created@, last_change_id, mailbox, uid_validity),
    {
        if created.len() == 0 {
            return Appended { announce: None, update_selected: false, code: None };
        }
        let mut uids: Vec<u32> = Vec::new();
        let mut i: usize = 0;
        while i < created.len()
            invariant
                i <= created.len(),
                uids@ == uids_of(created@).take(i as int),
            decreases created.len() - i,
        {
            uids.push(created[i].uid);
            assert(uids@ =~= uids_of(created@).take(i + 1));
            i += 1;
        }
        assert(uids_of(created@).take(i as int) =~= uids_of(created@));
        let is_selected = match self.selected {
            Some(selected) => selected == mailbox,
            None => false,
        };
        let announce = if self.is_qresync && is_selected {
            Some(
                match last_change_id {
                    Some(id) => id,
                    None => 0,
                },
            )
        } else {
            None
        };
        let validity = match uid_validity {
            Some(validity) => validity,
            None => 0,
        };
        Appended {
            announce,
            update_selected: is_selected,
            code: Some(ResponseCode::AppendUid { uid_validity: validity, uids }),
        }
    }
}

} // verus!

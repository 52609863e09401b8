//! The record of what a document did, reported to the server's log.
use vstd::prelude::*;
use crate::text;
use crate::visual_scripting::element::ElementKind;
use crate::server::logging::ServerLog;

verus! {

/// One thing that a document did, or the error that stopped it. Ids of
/// users and roles are kept as the text that names them.
#[derive(Debug)]
pub enum ActionTrackerItem {
    Error(ElementKind, String),
    AssignedMemberRole(String, String),
    RemovedMemberRole(String, String),
    BannedMember(String),
    KickedMember(String),
    CreatedMessage(u64, u64),
    DeletedMessage(String, String),
    CreatedThread(u64, u64),
}

/// What a document did, in order.
pub struct ActionTracker {
    document_name: String,
    items: Vec<ActionTrackerItem>,
    pub replied: bool,
}

/// `new` is `old` with one item more at the end.
pub open spec fn appended(old: Seq<ActionTrackerItem>, new: Seq<ActionTrackerItem>) -> bool {
    new.len() == old.len() + 1 && new.drop_last() == old
}

impl ActionTracker {
    /// The name of the document.
    pub closed spec fn name(&self) -> Seq<char> {
        self.document_name@
    }

    /// Whether the document answered the interaction that ran it.
    pub closed spec fn has_replied(&self) -> bool {
        self.replied
    }

    /// What the document did so far.
    pub closed spec fn entries(&self) -> Seq<ActionTrackerItem> {
        self.items@
    }

    /// An empty record for the document `document_name`.
    pub fn new(document_name: String) -> (r: ActionTracker)
        ensures
            r.name() == document_name@,
            r.entries().len() == 0,
            !r.has_replied(),
    {
        ActionTracker { document_name, items: Vec::new(), replied: false }
    }

    /// The name of the document.
    pub fn document_name(&self) -> (r: &str)
        ensures
            r@ == self.name(),
    {
        self.document_name.as_str()
    }

    /// What the document did so far.
    pub fn items(&self) -> (r: &Vec<ActionTrackerItem>)
        ensures
            r@ == self.entries(),
    {
        &self.items
    }

    /// The name of the document and what it did, giving up the record.
    pub fn into_parts(self) -> (r: (String, Vec<ActionTrackerItem>))
        ensures
            r.0@ == self.name(),
            r.1@ == self.entries(),
    {
        (self.document_name, self.items)
    }

    fn push(&mut self, item: ActionTrackerItem)
        ensures
            final(self).entries() == old(self).entries().push(item),
            appended(old(self).entries(), final(self).entries()),
            final(self).name() == old(self).name(),
            final(self).has_replied() == old(self).has_replied(),
    {
        self.items.push(item);
        assert(self.items@.drop_last() =~= old(self).items@);
    }

    /// The log entry of what the document did: there is one where it did anything.
    pub fn into_log(self) -> (r: Option<ServerLog>)
        ensures
            match r {
                Some(log) => {
                    &&& self.entries().len() > 0
                    &&& log matches ServerLog::VisualScriptingDocumentResult { items, document_name }
                    &&& items@ == self.entries()
                    &&& document_name@ == self.name()
                },
                None => self.entries().len() == 0,
            },
    {
        if self.items.len() > 0 {
            Some(ServerLog::VisualScriptingDocumentResult { items: self.items, document_name: self.document_name })
        } else {
            None
        }
    }

    /// Records that the interaction that started the document was answered.
    pub fn mark_replied(&mut self)
        ensures
            final(self).entries() == old(self).entries(),
            final(self).name() == old(self).name(),
            final(self).has_replied(),
    {
        self.replied = true;
    }

    /// Records that the element `element_kind` failed with the message `message`.
    pub fn error(&mut self, element_kind: ElementKind, message: String)
        ensures
            final(self).entries() == old(self).entries().push(ActionTrackerItem::Error(element_kind, message)),
            final(self).name() == old(self).name(),
            final(self).has_replied() == old(self).has_replied(),
    {
        self.push(ActionTrackerItem::Error(element_kind, message));
    }

    /// Records that a thread `thread_id` was started in the channel `channel_id`.
    pub fn created_thread(&mut self, channel_id: u64, thread_id: u64)
        ensures
            final(self).entries() == old(self).entries().push(ActionTrackerItem::CreatedThread(channel_id, thread_id)),
            final(self).name() == old(self).name(),
            final(self).has_replied() == old(self).has_replied(),
    {
        self.push(ActionTrackerItem::CreatedThread(channel_id, thread_id));
    }

    /// Records that the role `role_id` was given to the user `user_id`.
    pub fn assigned_member_role(&mut self, user_id: u64, role_id: &str)
        ensures
            appended(old(self).entries(), final(self).entries()),
            final(self).entries().last() matches ActionTrackerItem::AssignedMemberRole(u, r) && u@ == text::decimal(
                user_id as nat,
            ) && r@ == role_id@,
            final(self).name() == old(self).name(),
            final(self).has_replied() == old(self).has_replied(),
    {
        let u = text::decimal_string(user_id);
        let r = String::from_str(role_id);
        self.push(ActionTrackerItem::AssignedMemberRole(u, r));
    }

    /// Records that the role `role_id` was taken from the user `user_id`.
    pub fn removed_member_role(&mut self, user_id: u64, role_id: &str)
        ensures
            appended(old(self).entries(), final(self).entries()),
            final(self).entries().last() matches ActionTrackerItem::RemovedMemberRole(u, r) && u@ == text::decimal(
                user_id as nat,
            ) && r@ == role_id@,
            final(self).name() == old(self).name(),
            final(self).has_replied() == old(self).has_replied(),
    {
        let u = text::decimal_string(user_id);
        let r = String::from_str(role_id);
        self.push(ActionTrackerItem::RemovedMemberRole(u, r));
    }

    /// Records that the user `user_id` was banned.
    pub fn banned_member(&mut self, user_id: u64)
        ensures
            appended(old(self).entries(), final(self).entries()),
            final(self).entries().last() matches ActionTrackerItem::BannedMember(u) && u@ == text::decimal(user_id as nat),
            final(self).name() == old(self).name(),
            final(self).has_replied() == old(self).has_replied(),
    {
        let u = text::decimal_string(user_id);
        self.push(ActionTrackerItem::BannedMember(u));
    }

    /// Records that the user `user_id` was kicked.
    pub fn kicked_member(&mut self, user_id: u64)
        ensures
            appended(old(self).entries(), final(self).entries()),
            final(self).entries().last() matches ActionTrackerItem::KickedMember(u) && u@ == text::decimal(user_id as nat),
            final(self).name() == old(self).name(),
            final(self).has_replied() == old(self).has_replied(),
    {
        let u = text::decimal_string(user_id);
        self.push(ActionTrackerItem::KickedMember(u));
    }

    /// Records that the message `message_id` was sent in the channel `channel_id`.
    pub fn created_message(&mut self, channel_id: u64, message_id: u64)
        ensures
            final(self).entries() == old(self).entries().push(ActionTrackerItem::CreatedMessage(channel_id, message_id)),
            final(self).name() == old(self).name(),
            final(self).has_replied() == old(self).has_replied(),
    {
        self.push(ActionTrackerItem::CreatedMessage(channel_id, message_id));
    }

    /// Records that a message by the user `user_id` was deleted in the channel `channel_id`.
    pub fn deleted_message(&mut self, channel_id: u64, user_id: &str)
        ensures
            appended(old(self).entries(), final(self).entries()),
            final(self).entries().last() matches ActionTrackerItem::DeletedMessage(c, u) && c@ == text::decimal(
                channel_id as nat,
            ) && u@ == user_id@,
            final(self).name() == old(self).name(),
            final(self).has_replied() == old(self).has_replied(),
    {
        let c = text::decimal_string(channel_id);
        let u = String::from_str(user_id);
        self.push(ActionTrackerItem::DeletedMessage(c, u));
    }
}

} // verus!

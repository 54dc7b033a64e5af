//! Messages exchanged between sessions, the broker and the ingestion task.

use vstd::prelude::*;
use vstd::std_specs::cmp::PartialEqSpecImpl;
use vstd::std_specs::convert::FromSpecImpl;

verus! {

/// The address of one session: the token under which the broker registers a
/// subscriber and by which the runtime finds the session to deliver to.
///
/// Two handles are equal exactly when they name the same session.
#[derive(Clone, Copy, Debug, PartialEq, Eq, Hash, Structural)]
pub struct SubscriberHandle(pub u64);

/// A topic identifier ("chat id"): an opaque string compared by exact equality.
///
/// Its view is the sequence of its characters.
#[derive(Debug, Eq, Hash)]
pub struct ChatID(pub String);

impl View for ChatID {
    type V = Seq<char>;

    open spec fn view(&self) -> Seq<char> {
        self.0@
    }
}

impl Clone for ChatID {
    fn clone(&self) -> (copy: ChatID)
        ensures
            copy@ == self@,
    {
        ChatID(self.0.clone())
    }
}

impl PartialEq for ChatID {
    fn eq(&self, other: &ChatID) -> (same: bool) {
        self.0 == other.0
    }
}

impl PartialEqSpecImpl for ChatID {
    open spec fn obeys_eq_spec() -> bool {
        true
    }

    open spec fn eq_spec(&self, other: &ChatID) -> bool {
        self@ == other@
    }
}

/// An external event: the topic named by the payload has fired.
#[derive(Debug)]
pub struct Notification(pub String);

impl View for Notification {
    type V = Seq<char>;

    open spec fn view(&self) -> Seq<char> {
        self.0@
    }
}

impl From<Notification> for ChatID {
    fn from(notification: Notification) -> (chat_id: ChatID) {
        ChatID(notification.0)
    }
}

impl FromSpecImpl<Notification> for ChatID {
    open spec fn obeys_from_spec() -> bool {
        true
    }

    open spec fn from_spec(notification: Notification) -> ChatID {
        ChatID(notification.0)
    }
}

/// A request to register `addr` as a subscriber of `chat_id`.
#[derive(Debug)]
pub struct AddSub {
    pub chat_id: ChatID,
    pub addr: SubscriberHandle,
}

/// A request to remove `addr` from every topic listed in `chat_ids`.
///
/// The list stands for a set: order and repetition carry no meaning.
#[derive(Debug)]
pub struct Disconnect {
    pub chat_ids: Vec<ChatID>,
    pub addr: SubscriberHandle,
}

/// The set of topics that a list of chat ids names.
pub open spec fn topic_set(chat_ids: Seq<ChatID>) -> Set<Seq<char>> {
    Set::new(|topic: Seq<char>| exists|i: int| 0 <= i < chat_ids.len() && #[trigger] chat_ids[i]@ == topic)
}

impl Disconnect {
    /// The set of topics that this request names.
    pub open spec fn topics(&self) -> Set<Seq<char>> {
        topic_set(self.chat_ids@)
    }
}

/// A tick of the synthetic notification source.
#[derive(Clone, Copy, Debug, PartialEq, Eq, Structural)]
pub struct Trigger;

} // verus!

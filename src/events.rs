use vstd::prelude::*;
use crate::directory::{Contact, Directory, GroupChat, contact_ids, group_ids, new_contacts,
    new_groups, token_of, views};
use crate::dispatch::Delivery;

verus! {

/// What the engine asks the host UI to do, in order.
pub enum Event {
    ShowVerifyImage(String),
    ShowMessageBox(String),
    AddContact(String),
    AddGroup(String),
    Deliver(Delivery),
    RefreshChatMembers(String),
    /// Stop draining for this tick; the events after it wait for the next one.
    Yield,
}

/// How many queued events the host handles in this tick: all of them up to
/// the first `Yield`.  When the result is below the queue's length, the
/// event there is that `Yield`, which the host consumes without handling.
pub fn pump_batch(queue: &Vec<Event>) -> (r: usize)
    ensures
        r <= queue@.len(),
        forall|j: int| 0 <= j < r ==> !(#[trigger] queue@[j] is Yield),
        r < queue@.len() ==> queue@[r as int] is Yield,
{
    let mut i: usize = 0;
    while i < queue.len()
        invariant
            i <= queue@.len(),
            forall|j: int| 0 <= j < i ==> !(#[trigger] queue@[j] is Yield),
        decreases queue.len() - i,
    {
        if let Event::Yield = &queue[i] {
            return i;
        }
        i = i + 1;
    }
    i
}

/// Stores the fetched contact list and gives the events for it: a `Yield`,
/// then one `AddContact` per new identifier, in list order.
pub fn contacts_fetched(dir: &mut Directory, list: &Vec<Contact>) -> (events: Vec<Event>)
    requires
        old(dir).wf(),
    ensures
        final(dir).wf(),
        final(dir).contacts@ == old(dir).contacts@ + new_contacts(list@, old(dir).contact_id_set()),
        final(dir).groups@ == old(dir).groups@,
        events@.len() == new_contacts(list@, old(dir).contact_id_set()).len() + 1,
        events@[0] is Yield,
        forall|k: int| 0 < k < events@.len() ==> (#[trigger] events@[k] matches Event::AddContact(id)
            && id@ == contact_ids(new_contacts(list@, old(dir).contact_id_set()))[k - 1]),
{
    let notified = dir.add_contacts(list);
    assert(views(notified@).len() == notified@.len());
    assert(contact_ids(new_contacts(list@, old(dir).contact_id_set())).len()
        == new_contacts(list@, old(dir).contact_id_set()).len());
    let mut events: Vec<Event> = Vec::new();
    events.push(Event::Yield);
    let mut i: usize = 0;
    while i < notified.len()
        invariant
            i <= notified@.len(),
            events@.len() == i + 1,
            events@[0] is Yield,
            forall|k: int| 0 < k < events@.len() ==> (#[trigger] events@[k] matches Event::AddContact(id)
                && id@ == views(notified@)[k - 1]),
        decreases notified.len() - i,
    {
        events.push(Event::AddContact(notified[i].clone()));
        i = i + 1;
    }
    events
}

/// Stores the fetched group chats and gives one `AddGroup` per new
/// identifier, in list order.
pub fn groups_fetched(dir: &mut Directory, list: &Vec<GroupChat>) -> (events: Vec<Event>)
    requires
        old(dir).wf(),
        forall|j: int| 0 <= j < list@.len()
            ==> (#[trigger] list@[j]).token as nat == token_of(list@[j].id@),
    ensures
        final(dir).wf(),
        final(dir).groups@ == old(dir).groups@ + new_groups(list@, old(dir).group_id_set()),
        final(dir).contacts@ == old(dir).contacts@,
        events@.len() == new_groups(list@, old(dir).group_id_set()).len(),
        forall|k: int| 0 <= k < events@.len() ==> (#[trigger] events@[k] matches Event::AddGroup(id)
            && id@ == group_ids(new_groups(list@, old(dir).group_id_set()))[k]),
{
    let notified = dir.add_groups(list);
    assert(views(notified@).len() == notified@.len());
    assert(group_ids(new_groups(list@, old(dir).group_id_set())).len()
        == new_groups(list@, old(dir).group_id_set()).len());
    let mut events: Vec<Event> = Vec::new();
    let mut i: usize = 0;
    while i < notified.len()
        invariant
            i <= notified@.len(),
            events@.len() == i,
            forall|k: int| 0 <= k < events@.len() ==> (#[trigger] events@[k] matches Event::AddGroup(id)
                && id@ == views(notified@)[k]),
        decreases notified.len() - i,
    {
        events.push(Event::AddGroup(notified[i].clone()));
        i = i + 1;
    }
    events
}

/// The events that follow opening a group conversation: a `Yield`, so that
/// the member refresh runs on a later tick, then the refresh itself.
pub fn join_chat_events(chat: &str) -> (events: Vec<Event>)
    ensures
        events@.len() == 2,
        events@[0] is Yield,
        events@[1] matches Event::RefreshChatMembers(id) && id@ == chat@,
{
    let mut events: Vec<Event> = Vec::new();
    events.push(Event::Yield);
    events.push(Event::RefreshChatMembers(chat.to_string()));
    events
}

} // verus!

use vstd::prelude::*;
use crate::directory::Directory;
use crate::session::{envelope_of, is_send_request, Session, SendRequest};

verus! {

/// Sends `text` to the chat that the UI knows by `token`: the message to show
/// at once in the chat as the user's own, and the request body.  `None` when
/// no chat has that token or the session has no valid envelope.
pub fn send_chat(dir: &Directory, session: &Session, token: u64, text: &str, stamp: u64)
    -> (r: Option<(String, SendRequest)>)
    requires
        dir.wf(),
    ensures
        r is None <==> (envelope_of(*session) is None
            || forall|j: int| 0 <= j < dir.groups@.len() ==> dir.groups@[j].token != token),
        r matches Some((chat, req)) ==> exists|j: int| 0 <= j < dir.groups@.len()
            && dir.groups@[j].token == token && chat@ == #[trigger] dir.groups@[j].id@
            && (forall|k: int| 0 <= k < j ==> dir.groups@[k].token != token)
            && is_send_request(*session, chat@, text@, stamp, req),
{
    match dir.find_chat_by_token(token) {
        Some(i) => {
            let chat = dir.groups[i].id.clone();
            match session.message_send_data(chat.as_str(), text, stamp) {
                Some(req) => Some((chat, req)),
                None => None,
            }
        },
        None => None,
    }
}

/// Sends `text` to the contact `who`: the request body, or `None` when the
/// session has no valid envelope.
pub fn send_im(session: &Session, who: &str, text: &str, stamp: u64) -> (r: Option<SendRequest>)
    ensures
        r is Some <==> envelope_of(*session) is Some,
        r matches Some(req) ==> is_send_request(*session, who@, text@, stamp, req),
{
    session.message_send_data(who, text, stamp)
}

} // verus!

use vstd::prelude::*;
use crate::parse::{CharClass, attr_match, attr_value, is_attr_value, group_split, split_group_content};
use crate::session::is_group_id;
use crate::text::{contains, contains_exec, dec, decimal, same_text, starts_with};

verus! {

/// An inbound message as the sync endpoint reports it.
pub struct InboundMessage {
    pub msg_type: i64,
    pub msg_id: String,
    pub from: String,
    pub to: String,
    pub content: String,
    pub create_time: i64,
}

/// How a message reaches its conversation.
#[derive(Clone, Copy, Debug, PartialEq, Eq, Structural)]
pub enum DeliveryKind {
    /// A group message from another member.
    ChatReceived,
    /// A group message without a sender prefix: a notice of the chat itself.
    ChatNotice,
    /// The user's own group message, echoed back.
    ChatSent,
    /// A direct message to the user.
    DirectReceived,
    /// The user's own direct message, sent from another device.
    DirectSent,
}

/// A message ready for the host UI.
pub struct Delivery {
    pub kind: DeliveryKind,
    pub conversation: String,
    pub sender: String,
    pub text: String,
    pub images: bool,
    pub time: i64,
}

/// What the dispatcher does with an inbound message.
pub enum Action {
    /// An init echo: nothing to show.
    Discard,
    /// Fetch the image of the message with this id, then deliver it.
    FetchImage(String),
    /// Fetch the sticker at this URL, then deliver it.
    FetchEmoji(String),
    /// Deliver now.
    Deliver(Delivery),
}

pub const MSG_IMAGE: i64 = 3;
pub const MSG_EMOJI: i64 = 47;
pub const MSG_INIT: i64 = 51;

pub open spec fn image_marker() -> Seq<char> {
    seq!['<', 'I', 'M', 'G', ' ', 'I', 'D', '=']
}

pub open spec fn cdn_name() -> Seq<char> {
    seq!['c', 'd', 'n', 'u', 'r', 'l']
}

/// Kind, conversation and sender of a message; `content` names the real
/// sender of a group message.
pub open spec fn route_of(from: Seq<char>, to: Seq<char>, content: Seq<char>, me: Seq<char>)
    -> (DeliveryKind, Seq<char>, Seq<char>)
{
    if is_group_id(from) {
        match group_split(content) {
            Some((sender, _)) => (DeliveryKind::ChatReceived, from, sender),
            None => (DeliveryKind::ChatNotice, from, from),
        }
    } else if is_group_id(to) {
        (DeliveryKind::ChatSent, to, from)
    } else if from != me {
        (DeliveryKind::DirectReceived, from, from)
    } else {
        (DeliveryKind::DirectSent, to, from)
    }
}

/// The text shown for a text message.
pub open spec fn text_of(from: Seq<char>, content: Seq<char>) -> Seq<char> {
    if is_group_id(from) {
        match group_split(content) {
            Some((_, text)) => text,
            None => content,
        }
    } else {
        content
    }
}

/// The placeholder shown for image `id`: `<IMG ID="id">`.
pub open spec fn image_tag(id: u64) -> Seq<char> {
    image_marker() + seq!['"'] + dec(id as nat) + seq!['"', '>']
}

/// `d` delivers `text` along the route that `m` takes for user `me`.
pub open spec fn delivers(d: Delivery, m: InboundMessage, me: Seq<char>, text: Seq<char>) -> bool {
    let r = route_of(m.from@, m.to@, m.content@, me);
    &&& d.kind == r.0
    &&& d.conversation@ == r.1
    &&& d.sender@ == r.2
    &&& d.text@ == text
    &&& d.images == contains(text, image_marker())
    &&& d.time == m.create_time
}

fn route(m: &InboundMessage, me: &str, text: String) -> (d: Delivery)
    ensures
        delivers(d, *m, me@, text@),
{
    proof { reveal_strlit("@@"); reveal_strlit("<IMG ID="); }
    let gp = "@@";
    let marker = "<IMG ID=";
    assert(gp@ =~= seq!['@', '@']);
    assert(marker@ =~= image_marker());
    let images = contains_exec(text.as_str(), marker);
    let (kind, conversation, sender) = if starts_with(m.from.as_str(), gp) {
        match split_group_content(m.content.as_str()) {
            Some((sender, _)) => (DeliveryKind::ChatReceived, m.from.clone(), sender),
            None => (DeliveryKind::ChatNotice, m.from.clone(), m.from.clone()),
        }
    } else if starts_with(m.to.as_str(), gp) {
        (DeliveryKind::ChatSent, m.to.clone(), m.from.clone())
    } else if !same_text(m.from.as_str(), me) {
        (DeliveryKind::DirectReceived, m.from.clone(), m.from.clone())
    } else {
        (DeliveryKind::DirectSent, m.to.clone(), m.from.clone())
    };
    Delivery { kind, conversation, sender, text, images, time: m.create_time }
}

/// Classifies and routes a text message for user `me`.
pub fn route_text(m: &InboundMessage, me: &str) -> (d: Delivery)
    ensures
        delivers(d, *m, me@, text_of(m.from@, m.content@)),
{
    proof { reveal_strlit("@@"); }
    let gp = "@@";
    assert(gp@ =~= seq!['@', '@']);
    let text = if starts_with(m.from.as_str(), gp) {
        match split_group_content(m.content.as_str()) {
            Some((_, text)) => text,
            None => m.content.clone(),
        }
    } else {
        m.content.clone()
    };
    route(m, me, text)
}

/// Routes a fetched image, stored under `image_id`, for user `me`.
pub fn route_image(m: &InboundMessage, me: &str, image_id: u64) -> (d: Delivery)
    ensures
        delivers(d, *m, me@, image_tag(image_id)),
        d.images,
{
    proof { reveal_strlit("<IMG ID=\""); reveal_strlit("\">"); }
    let mut tag = String::from_str("<IMG ID=\"");
    let id = decimal(image_id);
    tag.append(id.as_str());
    tag.append("\">");
    assert(tag@ =~= image_tag(image_id));
    assert(tag@.subrange(0, 8) =~= image_marker());
    assert(crate::text::occurs_at(tag@, 0, image_marker()));
    route(m, me, tag)
}

/// What to do with an inbound message for user `me`: drop init echoes, fetch
/// images and stickers first, deliver everything else at once.
pub fn dispatch(m: &InboundMessage, me: &str) -> (a: Action)
    ensures
        m.msg_type == MSG_INIT ==> a is Discard,
        m.msg_type == MSG_IMAGE ==> (a matches Action::FetchImage(id) && id@ == m.msg_id@),
        m.msg_type == MSG_EMOJI ==> match a {
            Action::FetchEmoji(url) => is_attr_value(m.content@, cdn_name(), true, CharClass::NotQuote,
                url@),
            Action::Deliver(d) => (forall|i: int| !attr_match(m.content@, cdn_name(), true,
                CharClass::NotQuote, i)) && delivers(d, *m, me@, text_of(m.from@, m.content@)),
            _ => false,
        },
        m.msg_type != MSG_INIT && m.msg_type != MSG_IMAGE && m.msg_type != MSG_EMOJI ==>
            (a matches Action::Deliver(d) && delivers(d, *m, me@, text_of(m.from@, m.content@))),
{
    if m.msg_type == MSG_INIT {
        Action::Discard
    } else if m.msg_type == MSG_IMAGE {
        Action::FetchImage(m.msg_id.clone())
    } else if m.msg_type == MSG_EMOJI {
        proof { reveal_strlit("cdnurl"); }
        let name = "cdnurl";
        assert(name@ =~= cdn_name());
        match attr_value(m.content.as_str(), name, true, CharClass::NotQuote) {
            Some(url) => Action::FetchEmoji(url),
            None => Action::Deliver(route_text(m, me)),
        }
    } else {
        Action::Deliver(route_text(m, me))
    }
}

} // verus!

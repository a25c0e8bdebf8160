use vstd::prelude::*;
use crate::cursor::{SyncKey, FetchCursor, fetch_cursor};
use crate::directory::views;
use crate::parse::{CharClass, class_end, class_end_exec, has_tag, is_tag_value, tagged_value};
use crate::text::{dec, dec_value, decimal, digits_value, is_prefix, starts_with};

verus! {

/// The credentials that the login page hands out.
pub struct Credentials {
    pub skey: String,
    pub sid: String,
    pub uin: String,
    pub pass_ticket: String,
}

/// The authentication block of every authenticated request body.
pub struct BaseRequest {
    pub uin: u64,
    pub sid: String,
    pub skey: String,
    pub device_id: String,
}

/// Body of the status-notify request.
pub struct StatusNotify {
    pub base: BaseRequest,
    pub code: u64,
    pub from_user: String,
    pub to_user: String,
    pub client_msg_id: u64,
}

/// Body of the batch group-info request.
pub struct GroupInfoRequest {
    pub base: BaseRequest,
    pub count: usize,
    pub list: Vec<String>,
}

/// Body of the message-fetch request.
pub struct MessageCheck {
    pub base: BaseRequest,
    pub sync_key: FetchCursor,
    pub rr: i64,
}

/// Body of the message-send request.
pub struct SendRequest {
    pub base: BaseRequest,
    pub msg_type: u64,
    pub content: String,
    pub from_user: String,
    pub to_user: String,
    pub local_id: String,
    pub client_msg_id: String,
    pub scene: u64,
}

/// The single authenticated session.
pub struct Session {
    pub uin: String,
    pub sid: String,
    pub skey: String,
    pub device_id: String,
    pub pass_ticket: String,
    pub cookies: Vec<String>,
    pub user_name: String,
    pub cursor: Vec<SyncKey>,
}

/// `uin` is a non-empty run of decimal digits whose value fits in a `u64`.
pub open spec fn uin_valid(uin: Seq<char>) -> bool {
    &&& 0 < uin.len()
    &&& class_end(uin, 0, CharClass::Digit) == uin.len()
    &&& dec_value(uin) <= u64::MAX
}

/// The envelope that a session's credentials give: uin, sid, skey, device id.
pub open spec fn envelope_of(s: Session) -> Option<(nat, Seq<char>, Seq<char>, Seq<char>)> {
    if uin_valid(s.uin@) {
        Some((dec_value(s.uin@), s.sid@, s.skey@, s.device_id@))
    } else {
        None
    }
}

pub open spec fn envelope_view(b: BaseRequest) -> (nat, Seq<char>, Seq<char>, Seq<char>) {
    (b.uin as nat, b.sid@, b.skey@, b.device_id@)
}

/// The part of a `Set-Cookie` line before its first `;`.
pub open spec fn cookie_pair(line: Seq<char>) -> Seq<char> {
    line.subrange(0, class_end(line, 0, CharClass::NotSemicolon))
}

/// The client message id: the decimal stamp followed by `1234`.
pub open spec fn client_id(stamp: u64) -> Seq<char> {
    dec(stamp as nat) + seq!['1', '2', '3', '4']
}

/// `d` is the message-send body for a text message from the user of `s` to
/// `who`: the session's envelope, type 1, scene 0, and local and client ids
/// both `stamp` followed by `1234`.
pub open spec fn is_send_request(s: Session, who: Seq<char>, content: Seq<char>, stamp: u64,
    d: SendRequest) -> bool {
    &&& envelope_of(s) == Some(envelope_view(d.base))
    &&& d.msg_type == 1
    &&& d.content@ == content
    &&& d.from_user@ == s.user_name@
    &&& d.to_user@ == who
    &&& d.local_id@ == client_id(stamp)
    &&& d.client_msg_id@ == client_id(stamp)
    &&& d.scene == 0
}

/// Identifiers in the group-chat namespace start with `@@`.
pub open spec fn is_group_id(id: Seq<char>) -> bool {
    is_prefix(seq!['@', '@'], id)
}

/// The group identifiers among `ids`, in order.
pub open spec fn group_filter(ids: Seq<Seq<char>>) -> Seq<Seq<char>>
    decreases ids.len(),
{
    if ids.len() == 0 {
        Seq::empty()
    } else if is_group_id(ids.last()) {
        group_filter(ids.drop_last()).push(ids.last())
    } else {
        group_filter(ids.drop_last())
    }
}

pub open spec fn skey_open() -> Seq<char> { seq!['<', 's', 'k', 'e', 'y', '>'] }
pub open spec fn skey_close() -> Seq<char> { seq!['<', '/', 's', 'k', 'e', 'y', '>'] }
pub open spec fn sid_open() -> Seq<char> { seq!['<', 'w', 'x', 's', 'i', 'd', '>'] }
pub open spec fn sid_close() -> Seq<char> { seq!['<', '/', 'w', 'x', 's', 'i', 'd', '>'] }
pub open spec fn uin_open() -> Seq<char> { seq!['<', 'w', 'x', 'u', 'i', 'n', '>'] }
pub open spec fn uin_close() -> Seq<char> { seq!['<', '/', 'w', 'x', 'u', 'i', 'n', '>'] }
pub open spec fn ticket_open() -> Seq<char> {
    seq!['<', 'p', 'a', 's', 's', '_', 't', 'i', 'c', 'k', 'e', 't', '>']
}
pub open spec fn ticket_close() -> Seq<char> {
    seq!['<', '/', 'p', 'a', 's', 's', '_', 't', 'i', 'c', 'k', 'e', 't', '>']
}

/// Reads skey, sid, uin and pass ticket from the login page; `None` when any
/// of the four tags is missing.
pub fn login_credentials(body: &str) -> (r: Option<Credentials>)
    ensures
        r is Some <==> (has_tag(body@, skey_open(), skey_close()) && has_tag(body@, sid_open(),
            sid_close()) && has_tag(body@, uin_open(), uin_close()) && has_tag(body@,
            ticket_open(), ticket_close())),
        r matches Some(c) ==> is_tag_value(body@, skey_open(), skey_close(), c.skey@)
            && is_tag_value(body@, sid_open(), sid_close(), c.sid@)
            && is_tag_value(body@, uin_open(), uin_close(), c.uin@)
            && is_tag_value(body@, ticket_open(), ticket_close(), c.pass_ticket@),
{
    proof {
        reveal_strlit("<skey>"); reveal_strlit("</skey>");
        reveal_strlit("<wxsid>"); reveal_strlit("</wxsid>");
        reveal_strlit("<wxuin>"); reveal_strlit("</wxuin>");
        reveal_strlit("<pass_ticket>"); reveal_strlit("</pass_ticket>");
    }
    let (o1, c1) = ("<skey>", "</skey>");
    let (o2, c2) = ("<wxsid>", "</wxsid>");
    let (o3, c3) = ("<wxuin>", "</wxuin>");
    let (o4, c4) = ("<pass_ticket>", "</pass_ticket>");
    assert(o1@ =~= skey_open() && c1@ =~= skey_close());
    assert(o2@ =~= sid_open() && c2@ =~= sid_close());
    assert(o3@ =~= uin_open() && c3@ =~= uin_close());
    assert(o4@ =~= ticket_open() && c4@ =~= ticket_close());
    let skey = tagged_value(body, o1, c1);
    let sid = tagged_value(body, o2, c2);
    let uin = tagged_value(body, o3, c3);
    let pass_ticket = tagged_value(body, o4, c4);
    match (skey, sid, uin, pass_ticket) {
        (Some(skey), Some(sid), Some(uin), Some(pass_ticket)) => Some(
            Credentials { skey, sid, uin, pass_ticket },
        ),
        _ => None,
    }
}

/// Reads a uin as a number; `None` unless it is decimal digits, at most `u64::MAX`.
pub fn parse_uin(uin: &str) -> (r: Option<u64>)
    ensures
        r is Some <==> uin_valid(uin@),
        r matches Some(v) ==> v as nat == dec_value(uin@),
{
    let n = uin.unicode_len();
    if n == 0 {
        return None;
    }
    let e = class_end_exec(uin, 0, CharClass::Digit);
    if e != n {
        return None;
    }
    assert(uin@.subrange(0, n as int) =~= uin@);
    digits_value(uin, 0, n)
}

/// The group identifiers among `ids`, in order.
pub fn group_ids_of(ids: &Vec<String>) -> (r: Vec<String>)
    ensures
        views(r@) == group_filter(views(ids@)),
{
    proof { reveal_strlit("@@"); }
    let gp = "@@";
    assert(gp@ =~= seq!['@', '@']);
    let mut r: Vec<String> = Vec::new();
    let mut i: usize = 0;
    while i < ids.len()
        invariant
            i <= ids@.len(),
            gp@ == seq!['@', '@'],
            views(r@) == group_filter(views(ids@.take(i as int))),
        decreases ids.len() - i,
    {
        let ghost before = r@;
        assert(views(ids@.take(i + 1)).drop_last() =~= views(ids@.take(i as int)));
        assert(views(ids@.take(i + 1)).last() == ids@[i as int]@);
        if starts_with(ids[i].as_str(), gp) {
            r.push(ids[i].clone());
            assert(views(r@) =~= views(before).push(ids@[i as int]@));
        }
        i = i + 1;
    }
    assert(ids@.take(i as int) =~= ids@);
    r
}

impl Session {
    /// An empty session with the given device id.
    pub fn new(device_id: String) -> (r: Session)
        ensures
            r.device_id@ == device_id@,
            r.uin@.len() == 0 && r.sid@.len() == 0 && r.skey@.len() == 0,
            r.pass_ticket@.len() == 0 && r.user_name@.len() == 0,
            r.cookies@.len() == 0 && r.cursor@.len() == 0,
    {
        Session {
            uin: String::new(),
            sid: String::new(),
            skey: String::new(),
            device_id,
            pass_ticket: String::new(),
            cookies: Vec::new(),
            user_name: String::new(),
            cursor: Vec::new(),
        }
    }

    /// Stores the login credentials and the cookie set, all in one step.  The
    /// cookies are the parts of the `Set-Cookie` lines before their first `;`.
    pub fn set_credentials(&mut self, c: Credentials, set_cookie: &Vec<String>)
        requires
            forall|j: int| 0 <= j < set_cookie@.len() ==> cookie_pair(#[trigger] set_cookie@[j]@).len() > 0,
        ensures
            final(self).uin@ == c.uin@,
            final(self).sid@ == c.sid@,
            final(self).skey@ == c.skey@,
            final(self).pass_ticket@ == c.pass_ticket@,
            views(final(self).cookies@) == views(set_cookie@).map_values(|l: Seq<char>| cookie_pair(l)),
            final(self).device_id == old(self).device_id,
            final(self).user_name == old(self).user_name,
            final(self).cursor == old(self).cursor,
    {
        let mut jar: Vec<String> = Vec::new();
        let mut i: usize = 0;
        while i < set_cookie.len()
            invariant
                i <= set_cookie@.len(),
                views(jar@) == views(set_cookie@.take(i as int)).map_values(|l: Seq<char>| cookie_pair(l)),
            decreases set_cookie.len() - i,
        {
            let line = set_cookie[i].as_str();
            let e = class_end_exec(line, 0, CharClass::NotSemicolon);
            let pair = line.substring_char(0, e);
            let ghost before = jar@;
            let owned = pair.to_string();
            assert(owned@ == cookie_pair(set_cookie@[i as int]@));
            jar.push(owned);
            assert(views(jar@) =~= views(before).push(owned@));
            assert(views(set_cookie@.take(i + 1)) =~= views(set_cookie@.take(i as int)).push(set_cookie@[i as int]@));
            assert(views(jar@) =~= views(set_cookie@.take(i + 1)).map_values(|l: Seq<char>| cookie_pair(l)));
            i = i + 1;
        }
        assert(set_cookie@.take(i as int) =~= set_cookie@);
        self.uin = c.uin;
        self.sid = c.sid;
        self.skey = c.skey;
        self.pass_ticket = c.pass_ticket;
        self.cookies = jar;
    }

    /// Replaces the sync cursor with the one the server returned.
    pub fn set_sync_key(&mut self, keys: Vec<SyncKey>)
        ensures
            final(self).cursor@ == keys@,
            final(self).uin == old(self).uin && final(self).sid == old(self).sid,
            final(self).skey == old(self).skey && final(self).device_id == old(self).device_id,
            final(self).pass_ticket == old(self).pass_ticket,
            final(self).cookies == old(self).cookies,
            final(self).user_name == old(self).user_name,
    {
        self.cursor = keys;
    }

    /// Records the authenticated user's identifier.
    pub fn set_user_name(&mut self, name: String)
        ensures
            final(self).user_name@ == name@,
            final(self).cursor == old(self).cursor,
            final(self).uin == old(self).uin && final(self).sid == old(self).sid,
            final(self).skey == old(self).skey && final(self).device_id == old(self).device_id,
            final(self).pass_ticket == old(self).pass_ticket,
            final(self).cookies == old(self).cookies,
    {
        self.user_name = name;
    }

    /// The authentication block; `None` when the uin is not a number.  It is
    /// computed afresh from the session on every call.
    pub fn base_data(&self) -> (r: Option<BaseRequest>)
        ensures
            r is Some <==> envelope_of(*self) is Some,
            r matches Some(b) ==> envelope_of(*self) == Some(envelope_view(b)),
    {
        match parse_uin(self.uin.as_str()) {
            Some(uin) => Some(BaseRequest {
                uin,
                sid: self.sid.clone(),
                skey: self.skey.clone(),
                device_id: self.device_id.clone(),
            }),
            None => None,
        }
    }

    /// The status-notify body: code 3, from and to the user, with `stamp`.
    pub fn status_notify_data(&self, stamp: u64) -> (r: Option<StatusNotify>)
        ensures
            r is Some <==> envelope_of(*self) is Some,
            r matches Some(d) ==> envelope_of(*self) == Some(envelope_view(d.base))
                && d.code == 3 && d.from_user@ == self.user_name@ && d.to_user@ == self.user_name@
                && d.client_msg_id == stamp,
    {
        match self.base_data() {
            Some(base) => Some(StatusNotify {
                base,
                code: 3,
                from_user: self.user_name.clone(),
                to_user: self.user_name.clone(),
                client_msg_id: stamp,
            }),
            None => None,
        }
    }

    /// The batch group-info body for the chats `groups`.
    pub fn group_info_data(&self, groups: &Vec<String>) -> (r: Option<GroupInfoRequest>)
        ensures
            r is Some <==> envelope_of(*self) is Some,
            r matches Some(d) ==> envelope_of(*self) == Some(envelope_view(d.base))
                && d.count == groups@.len() && d.list@ == groups@,
    {
        match self.base_data() {
            Some(base) => Some(GroupInfoRequest { base, count: groups.len(), list: groups.clone() }),
            None => None,
        }
    }

    /// The message-fetch body: the cursor in count-and-list form and `rr`.
    pub fn message_check_data(&self, rr: i64) -> (r: Option<MessageCheck>)
        ensures
            r is Some <==> envelope_of(*self) is Some,
            r matches Some(d) ==> envelope_of(*self) == Some(envelope_view(d.base))
                && d.sync_key.count == self.cursor@.len() && d.sync_key.list@ == self.cursor@
                && d.rr == rr,
    {
        match self.base_data() {
            Some(base) => Some(MessageCheck { base, sync_key: fetch_cursor(&self.cursor), rr }),
            None => None,
        }
    }

    /// The message-send body: a text message from the user to `who`, whose
    /// local and client ids are `stamp` followed by `1234`, in scene 0.
    pub fn message_send_data(&self, who: &str, content: &str, stamp: u64) -> (r: Option<SendRequest>)
        ensures
            r is Some <==> envelope_of(*self) is Some,
            r matches Some(d) ==> is_send_request(*self, who@, content@, stamp, d),
    {
        match self.base_data() {
            Some(base) => {
                let mut id = decimal(stamp);
                proof { reveal_strlit("1234"); }
                id.append("1234");
                assert(id@ =~= client_id(stamp));
                let id2 = id.clone();
                Some(SendRequest {
                    base,
                    msg_type: 1,
                    content: content.to_string(),
                    from_user: self.user_name.clone(),
                    to_user: who.to_string(),
                    local_id: id,
                    client_msg_id: id2,
                    scene: 0,
                })
            },
            None => None,
        }
    }
}

/// The envelope depends on the session's credentials alone: two sessions that
/// agree on uin, sid, skey and device id give the same envelope, so building
/// it twice from an unchanged session gives the same value.
pub proof fn lemma_envelope_deterministic(a: Session, b: Session)
    requires
        a.uin@ == b.uin@,
        a.sid@ == b.sid@,
        a.skey@ == b.skey@,
        a.device_id@ == b.device_id@,
    ensures
        envelope_of(a) == envelope_of(b),
{
}

} // verus!

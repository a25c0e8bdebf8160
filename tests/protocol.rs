use wechat::cursor::{fetch_cursor, poll_string, SyncKey};
use wechat::directory::{chat_token, Contact, Directory, GroupChat};
use wechat::dispatch::{dispatch, route_image, route_text, Action, DeliveryKind, InboundMessage};
use wechat::outgoing::{send_chat, send_im};
use wechat::parse::{attr_value, split_group_content, tagged_value, CharClass};
use wechat::session::{group_ids_of, login_credentials, parse_uin, Credentials, Session};
use wechat::sync::{on_sync_response, parse_redirect, parse_uuid, run_sync, sync_step, SyncAction};
use wechat::parse::parse_sync_check;
use wechat::text::{decimal, same_text};

fn contact(id: &str) -> Contact {
    Contact { id: id.to_string(), name: format!("name {}", id), alias: String::new() }
}

fn message(t: i64, from: &str, to: &str, content: &str) -> InboundMessage {
    InboundMessage {
        msg_type: t,
        msg_id: "9001".to_string(),
        from: from.to_string(),
        to: to.to_string(),
        content: content.to_string(),
        create_time: 1500000000,
    }
}

fn logged_in() -> Session {
    let mut s = Session::new("e561500000000000".to_string());
    let c = Credentials {
        skey: "@crypt_k".to_string(),
        sid: "SID1".to_string(),
        uin: "123456".to_string(),
        pass_ticket: "PT".to_string(),
    };
    s.set_credentials(c, &vec!["a=1; Path=/".to_string(), "b=2".to_string()]);
    s.set_user_name("@me".to_string());
    s
}

#[test]
fn decimal_forms() {
    assert_eq!(decimal(0), "0");
    assert_eq!(decimal(1234567890), "1234567890");
    assert_eq!(decimal(u64::MAX), "18446744073709551615");
    assert!(same_text("abc", "abc"));
    assert!(!same_text("abc", "abd"));
}

#[test]
fn cursor_poll_string() {
    let keys = vec![SyncKey { key: 1, val: 651 }, SyncKey { key: 2, val: 700 }, SyncKey { key: 1000, val: 0 }];
    assert_eq!(poll_string(&keys), "1_651|2_700|1000_0");
    assert_eq!(poll_string(&vec![]), "");
    assert_eq!(poll_string(&vec![SyncKey { key: 3, val: 4 }]), "3_4");
}

#[test]
fn cursor_forms_agree() {
    let keys = vec![SyncKey { key: 1, val: 10 }, SyncKey { key: 2, val: 20 }];
    let f = fetch_cursor(&keys);
    assert_eq!(f.count, 2);
    assert_eq!(f.list, keys);
    assert_eq!(poll_string(&f.list), poll_string(&keys));
    assert_eq!(poll_string(&f.list), "1_10|2_20");
}

#[test]
fn duplicate_contacts_notify_once() {
    let mut d = Directory::new();
    assert!(d.add_contact(contact("@a")));
    assert!(!d.add_contact(contact("@a")));
    let notified = d.add_contacts(&vec![contact("@b"), contact("@a"), contact("@b"), contact("@c")]);
    assert_eq!(notified, vec!["@b".to_string(), "@c".to_string()]);
    assert_eq!(d.contacts.len(), 3);
    assert_eq!(d.add_contacts(&vec![contact("@c"), contact("@a")]).len(), 0);
}

#[test]
fn duplicate_groups_notify_once() {
    let mut d = Directory::new();
    let g = |id: &str| GroupChat::new(id.to_string(), String::new(), String::new());
    assert!(d.add_group(g("@@x")));
    assert!(!d.add_group(g("@@x")));
    let notified = d.add_groups(&vec![g("@@y"), g("@@x"), g("@@y")]);
    assert_eq!(notified, vec!["@@y".to_string()]);
    assert_eq!(d.groups.len(), 2);
}

#[test]
fn chat_tokens() {
    assert_eq!(chat_token(""), 1);
    assert_eq!(chat_token("a"), 98);
    assert_eq!(chat_token("ab"), 97 * 31 + 98 + 1);
    assert_eq!(chat_token("@@g1"), chat_token("@@g1"));
    assert_ne!(chat_token("@@g1"), chat_token("@@g2"));
}

#[test]
fn chat_handle_and_lookups() {
    let mut d = Directory::new();
    d.add_group(GroupChat::new("@@g1".to_string(), "G".to_string(), "alias".to_string()));
    assert_eq!(d.find_blist_chat("@@g1"), 0);
    assert!(d.set_chat_handle("@@g1", 77));
    assert!(!d.set_chat_handle("@@nope", 5));
    assert_eq!(d.groups.len(), 1);
    assert_eq!(d.find_blist_chat("@@g1"), 77);
    assert_eq!(d.find_blist_chat("@@nope"), 0);
    let t = d.find_chat_token("@@g1");
    assert_eq!(t, chat_token("@@g1"));
    assert_eq!(d.find_chat_token("@@nope"), 0);
    assert_eq!(d.find_chat_by_token(t), Some(0));
    assert_eq!(d.find_chat_by_id("@@g1"), Some(0));
}

#[test]
fn bootstrap_single_group() {
    let names = vec!["@@g1".to_string(), "@alice".to_string(), "filehelper".to_string()];
    let groups = group_ids_of(&names);
    assert_eq!(groups, vec!["@@g1".to_string()]);
    let mut d = Directory::new();
    let chats: Vec<GroupChat> =
        groups.iter().map(|id| GroupChat::new(id.clone(), String::new(), String::new())).collect();
    let notified = d.add_groups(&chats);
    assert_eq!(notified.len(), 1);
    assert_eq!(d.groups.len(), 1);
    assert_eq!(d.groups[0].id, "@@g1");
    assert_ne!(d.groups[0].token, 0);
    assert_eq!(d.groups[0].token, chat_token("@@g1"));
}

#[test]
fn group_content_split() {
    assert_eq!(
        split_group_content("@abc123:<br/>hello"),
        Some(("@abc123".to_string(), "hello".to_string()))
    );
    assert_eq!(
        split_group_content("@abc:<br/><br/>hi <b>x</b>"),
        Some(("@abc".to_string(), "hi <b>x</b>".to_string()))
    );
    assert_eq!(split_group_content("@abc:"), Some(("@abc".to_string(), String::new())));
    assert_eq!(split_group_content("someone joined the chat"), None);
    assert_eq!(split_group_content("@:hi"), None);
    assert_eq!(split_group_content("@abc:line\nbreak"), None);
}

#[test]
fn group_message_routing() {
    let d = route_text(&message(1, "@@g1", "@me", "@abc123:<br/>hello"), "@me");
    assert_eq!(d.kind, DeliveryKind::ChatReceived);
    assert_eq!(d.conversation, "@@g1");
    assert_eq!(d.sender, "@abc123");
    assert_eq!(d.text, "hello");
    assert!(!d.images);
    assert_eq!(d.time, 1500000000);

    let n = route_text(&message(10000, "@@g1", "@me", "X joined the group"), "@me");
    assert_eq!(n.kind, DeliveryKind::ChatNotice);
    assert_eq!(n.sender, "@@g1");
    assert_eq!(n.text, "X joined the group");
}

#[test]
fn echo_and_direct_routing() {
    let e = route_text(&message(1, "@me", "@@g1", "hi all"), "@me");
    assert_eq!(e.kind, DeliveryKind::ChatSent);
    assert_eq!(e.conversation, "@@g1");
    assert_eq!(e.sender, "@me");

    let i = route_text(&message(1, "@bob", "@me", "hello"), "@me");
    assert_eq!(i.kind, DeliveryKind::DirectReceived);
    assert_eq!(i.conversation, "@bob");

    let o = route_text(&message(1, "@me", "@bob", "from phone"), "@me");
    assert_eq!(o.kind, DeliveryKind::DirectSent);
    assert_eq!(o.conversation, "@bob");
    assert_eq!(o.text, "from phone");
}

#[test]
fn image_message_not_text() {
    let m = message(3, "@bob", "@me", "<msg><img/></msg>");
    match dispatch(&m, "@me") {
        Action::FetchImage(id) => assert_eq!(id, "9001"),
        _ => panic!("an image must be fetched first"),
    }
    let d = route_image(&m, "@me", 42);
    assert_eq!(d.text, "<IMG ID=\"42\">");
    assert!(d.images);
    assert_eq!(d.kind, DeliveryKind::DirectReceived);

    let g = route_image(&message(3, "@@g1", "@me", "@abc:<br/>..."), "@me", 7);
    assert_eq!(g.kind, DeliveryKind::ChatReceived);
    assert_eq!(g.sender, "@abc");
    assert_eq!(g.text, "<IMG ID=\"7\">");
}

#[test]
fn dispatch_kinds() {
    assert!(matches!(dispatch(&message(51, "@me", "@me", ""), "@me"), Action::Discard));
    match dispatch(&message(47, "@bob", "@me", "<emoji cdnurl = \"http://e/1.gif\" w=\"1\"/>"), "@me") {
        Action::FetchEmoji(u) => assert_eq!(u, "http://e/1.gif"),
        _ => panic!("sticker url expected"),
    }
    match dispatch(&message(47, "@bob", "@me", "[sticker]"), "@me") {
        Action::Deliver(d) => assert_eq!(d.text, "[sticker]"),
        _ => panic!("plain text expected"),
    }
    match dispatch(&message(1, "@bob", "@me", "see <IMG ID=\"3\">"), "@me") {
        Action::Deliver(d) => assert!(d.images),
        _ => panic!("text expected"),
    }
}

#[test]
fn sync_check_codes() {
    assert_eq!(parse_sync_check("window.synccheck={retcode:\"0\",selector:\"2\"}"), Some((0, 2)));
    assert_eq!(parse_sync_check("retcode:\"1100\",selector:\"0\""), Some((1100, 0)));
    assert_eq!(parse_sync_check("retcode:\"\",selector:\"0\""), None);
    assert_eq!(parse_sync_check("nothing here"), None);
    assert_eq!(parse_sync_check("retcode:\"x\" retcode:\"7\",selector:\"6\""), Some((7, 6)));
}

#[test]
fn sync_loop_decisions() {
    assert_eq!(sync_step(1100, 0), SyncAction::Terminate);
    assert_eq!(sync_step(1101, 2), SyncAction::Terminate);
    assert_eq!(sync_step(0, 0), SyncAction::PollAgain);
    assert_eq!(sync_step(0, 2), SyncAction::Fetch);
    assert_eq!(on_sync_response("window.synccheck={retcode:\"1100\",selector:\"0\"}"), Some(SyncAction::Terminate));
    assert_eq!(on_sync_response("garbage"), None);
}

#[test]
fn sync_loop_runs() {
    let r = run_sync(&vec![(0, 0), (0, 2), (0, 0), (1100, 0), (0, 2)]);
    assert_eq!(r.polls, 4);
    assert_eq!(r.fetches, 1);
    assert_eq!(r.notices, 1);
    let quiet = run_sync(&vec![(0, 0), (0, 0)]);
    assert_eq!(quiet.polls, 2);
    assert_eq!(quiet.fetches, 0);
    assert_eq!(quiet.notices, 0);
    let once = run_sync(&vec![(0, 2)]);
    assert_eq!(once.fetches, 1);
    assert_eq!(once.notices, 0);
}

#[test]
fn login_page_fields() {
    let body = "<error><ret>0</ret><skey>@crypt_1</skey><wxsid>S1</wxsid><wxuin>42</wxuin>\
                <pass_ticket>P%2B</pass_ticket></error>";
    let c = login_credentials(body).unwrap();
    assert_eq!(c.skey, "@crypt_1");
    assert_eq!(c.sid, "S1");
    assert_eq!(c.uin, "42");
    assert_eq!(c.pass_ticket, "P%2B");
    assert!(login_credentials("<skey>a</skey>").is_none());
    assert_eq!(tagged_value("<a>x</a>y</a>\n</a>", "<a>", "</a>"), Some("x</a>y".to_string()));
    assert_eq!(tagged_value("<a>x\n</a>", "<a>", "</a>"), None);
}

#[test]
fn login_tokens() {
    assert_eq!(parse_uuid("window.QRLogin.code = 200; window.QRLogin.uuid = \"gYmgd1grLg==\";"),
        Some("gYmgd1grLg==".to_string()));
    assert_eq!(parse_uuid("window.QRLogin.code = 400;"), None);
    assert_eq!(parse_redirect("window.code=200;\nwindow.redirect_uri=\"https://h/p?ticket=1\";"),
        Some("https://h/p?ticket=1".to_string()));
    assert_eq!(parse_redirect("window.code=408;"), None);
    assert_eq!(attr_value("k = \"\"", "k", true, CharClass::NotQuote), None);
}

#[test]
fn session_envelope() {
    let s = logged_in();
    assert_eq!(s.cookies, vec!["a=1".to_string(), "b=2".to_string()]);
    let a = s.base_data().unwrap();
    let b = s.base_data().unwrap();
    assert_eq!(a.uin, 123456);
    assert_eq!((a.uin, &a.sid, &a.skey, &a.device_id), (b.uin, &b.sid, &b.skey, &b.device_id));
    assert_eq!(a.sid, "SID1");
    assert_eq!(a.device_id, "e561500000000000");
    assert!(Session::new("d".to_string()).base_data().is_none());
    assert_eq!(parse_uin("0012"), Some(12));
    assert_eq!(parse_uin("12a"), None);
    assert_eq!(parse_uin(""), None);
}

#[test]
fn request_bodies() {
    let mut s = logged_in();
    s.set_sync_key(vec![SyncKey { key: 1, val: 5 }]);
    let m = s.message_check_data(-7).unwrap();
    assert_eq!(m.sync_key.count, 1);
    assert_eq!(m.rr, -7);
    let n = s.status_notify_data(99).unwrap();
    assert_eq!((n.code, n.from_user.as_str(), n.to_user.as_str(), n.client_msg_id), (3, "@me", "@me", 99));
    let g = s.group_info_data(&vec!["@@g1".to_string()]).unwrap();
    assert_eq!(g.count, 1);
    let r = send_im(&s, "@bob", "hi", 1500000000000).unwrap();
    assert_eq!(r.local_id, "15000000000001234");
    assert_eq!(r.client_msg_id, r.local_id);
    assert_eq!((r.msg_type, r.scene), (1, 0));
    assert_eq!(r.from_user, "@me");
    assert_eq!(r.to_user, "@bob");
}

#[test]
fn group_send() {
    let s = logged_in();
    let mut d = Directory::new();
    d.add_group(GroupChat::new("@@g1".to_string(), String::new(), String::new()));
    let t = d.find_chat_token("@@g1");
    let (chat, req) = send_chat(&d, &s, t, "yo", 5).unwrap();
    assert_eq!(chat, "@@g1");
    assert_eq!(req.to_user, "@@g1");
    assert_eq!(req.content, "yo");
    assert_eq!(req.local_id, "51234");
    assert!(send_chat(&d, &s, t + 1, "yo", 5).is_none());
}

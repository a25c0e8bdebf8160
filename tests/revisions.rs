use wechat::directory::{Contact, Directory, GroupChat};
use wechat::dispatch::{route_text, DeliveryKind, InboundMessage};
use wechat::events::{contacts_fetched, groups_fetched, join_chat_events, pump_batch, Event};
use wechat::headers::{cookie_header, request_headers, sync_headers};
use wechat::outgoing::{send_chat, send_im};
use wechat::parse::{parse_sync_check, split_group_content};
use wechat::session::{parse_uin, Credentials, Session};
use wechat::sync::{parse_uuid, run_sync};
use wechat::cursor::SyncKey;

fn person(id: &str, name: &str, alias: &str) -> Contact {
    Contact { id: id.to_string(), name: name.to_string(), alias: alias.to_string() }
}

fn session() -> Session {
    let mut s = Session::new("e56".to_string());
    s.set_credentials(
        Credentials {
            skey: "K".to_string(),
            sid: "S".to_string(),
            uin: "18446744073709551615".to_string(),
            pass_ticket: "P".to_string(),
        },
        &vec!["c=1".to_string()],
    );
    s.set_user_name("@me".to_string());
    s
}

#[test]
fn uin_up_to_u64_max() {
    assert_eq!(parse_uin("1234567890123456789"), Some(1234567890123456789));
    assert_eq!(parse_uin("18446744073709551615"), Some(u64::MAX));
    assert_eq!(parse_uin("18446744073709551616"), None);
    assert_eq!(parse_uin("000000000000000000000042"), Some(42));
    assert_eq!(session().base_data().unwrap().uin, u64::MAX);
    assert_eq!(parse_sync_check("retcode:\"18446744073709551616\",selector:\"0\""), None);
    assert_eq!(parse_sync_check("retcode:\"12345678901234567890\",selector:\"0\""),
        Some((12345678901234567890, 0)));
}

#[test]
fn new_contacts_in_list_order_with_records() {
    let mut d = Directory::new();
    d.add_contact(person("@a", "Ann", ""));
    let list = vec![person("@c", "Cy", "c1"), person("@a", "X", "x"), person("@b", "Bo", "b1"),
        person("@c", "Other", "o")];
    let notified = d.add_contacts(&list);
    assert_eq!(notified, vec!["@c".to_string(), "@b".to_string()]);
    let stored: Vec<(&str, &str, &str)> =
        d.contacts.iter().map(|c| (c.id.as_str(), c.name.as_str(), c.alias.as_str())).collect();
    assert_eq!(stored, vec![("@a", "Ann", ""), ("@c", "Cy", "c1"), ("@b", "Bo", "b1")]);
}

#[test]
fn fetched_contacts_yield_first() {
    let mut d = Directory::new();
    let events = contacts_fetched(&mut d, &vec![person("@x", "", ""), person("@y", "", ""),
        person("@x", "", "")]);
    assert_eq!(events.len(), 3);
    assert!(matches!(events[0], Event::Yield));
    assert!(matches!(&events[1], Event::AddContact(id) if id == "@x"));
    assert!(matches!(&events[2], Event::AddContact(id) if id == "@y"));
    let again = contacts_fetched(&mut d, &vec![person("@y", "", "")]);
    assert_eq!(again.len(), 1);
}

#[test]
fn fetched_groups_events() {
    let mut d = Directory::new();
    let g = |id: &str| GroupChat::new(id.to_string(), "n".to_string(), String::new());
    let events = groups_fetched(&mut d, &vec![g("@@1"), g("@@2"), g("@@1")]);
    assert_eq!(events.len(), 2);
    assert!(matches!(&events[1], Event::AddGroup(id) if id == "@@2"));
    assert_eq!(d.groups[1].name, "n");
}

#[test]
fn pump_stops_at_yield() {
    let q = vec![Event::AddContact("a".to_string()), Event::Yield, Event::AddGroup("g".to_string())];
    assert_eq!(pump_batch(&q), 1);
    assert_eq!(pump_batch(&vec![Event::Yield]), 0);
    assert_eq!(pump_batch(&vec![Event::AddContact("a".to_string())]), 1);
    assert_eq!(pump_batch(&vec![]), 0);
    let j = join_chat_events("@@g");
    assert!(matches!(j[0], Event::Yield));
    assert!(matches!(&j[1], Event::RefreshChatMembers(id) if id == "@@g"));
}

#[test]
fn header_sets() {
    assert_eq!(cookie_header(&vec!["a=1".to_string(), "b=2".to_string()]), "a=1; b=2");
    assert_eq!(cookie_header(&vec![]), "");
    let h = request_headers(&vec!["a=1".to_string()]);
    assert_eq!(h[0], ("Cookie".to_string(), "a=1".to_string()));
    assert_eq!(h[2], ("Host".to_string(), "web.wechat.com".to_string()));
    assert_eq!(h.len(), 5);
    let s = sync_headers(&vec!["a=1".to_string(), "b=2".to_string()]);
    assert_eq!(s[0].1, "a=1; b=2");
    assert_eq!(s[1], ("Host".to_string(), "webpush.web.wechat.com".to_string()));
    assert_eq!(s[2], ("Accept".to_string(), "*/*".to_string()));
}

#[test]
fn send_requests_whole() {
    let s = session();
    let r = send_im(&s, "@bob", "hi", 7).unwrap();
    assert_eq!((r.base.uin, r.base.sid.as_str(), r.base.skey.as_str(), r.base.device_id.as_str()),
        (u64::MAX, "S", "K", "e56"));
    assert_eq!((r.msg_type, r.scene, r.client_msg_id.as_str(), r.local_id.as_str()), (1, 0, "71234", "71234"));
    let mut d = Directory::new();
    d.add_group(GroupChat::new("@@g".to_string(), String::new(), String::new()));
    let (_, c) = send_chat(&d, &s, d.groups[0].token, "yo", 8).unwrap();
    assert_eq!((c.msg_type, c.scene, c.client_msg_id.as_str()), (1, 0, "81234"));
    assert_eq!(c.base.uin, u64::MAX);
}

#[test]
fn session_setters_keep_other_fields() {
    let mut s = session();
    s.set_sync_key(vec![SyncKey { key: 1, val: 2 }]);
    s.set_user_name("@other".to_string());
    assert_eq!(s.pass_ticket, "P");
    assert_eq!(s.cookies, vec!["c=1".to_string()]);
    assert_eq!(s.cursor, vec![SyncKey { key: 1, val: 2 }]);
}

#[test]
fn unicode_word_and_space() {
    assert_eq!(split_group_content("@é名:<br/>hi"), Some(("@é名".to_string(), "hi".to_string())));
    let m = InboundMessage {
        msg_type: 1,
        msg_id: String::new(),
        from: "@@g".to_string(),
        to: "@me".to_string(),
        content: "@ü1:hallo".to_string(),
        create_time: 0,
    };
    assert_eq!(route_text(&m, "@me").kind, DeliveryKind::ChatReceived);
    assert_eq!(parse_uuid("uuid\u{3000}=\u{a0}\"ab-c=\""), Some("ab-c=".to_string()));
}

#[test]
fn first_terminal_poll_counts() {
    let r = run_sync(&vec![(1101, 0)]);
    assert_eq!((r.polls, r.fetches, r.notices), (1, 0, 1));
}

use vstd::prelude::*;
use crate::directory::views;

verus! {

/// The cookie pairs joined by `; `, as one `Cookie` header value.
pub open spec fn join_cookies(cs: Seq<Seq<char>>) -> Seq<char>
    decreases cs.len(),
{
    if cs.len() == 0 {
        Seq::empty()
    } else if cs.len() == 1 {
        cs[0]
    } else {
        join_cookies(cs.drop_last()) + seq![';', ' '] + cs.last()
    }
}

/// Joins the session's cookie pairs into one `Cookie` header value.
pub fn cookie_header(cookies: &Vec<String>) -> (r: String)
    ensures
        r@ == join_cookies(views(cookies@)),
{
    let mut buf = String::new();
    let mut i: usize = 0;
    while i < cookies.len()
        invariant
            i <= cookies@.len(),
            buf@ == join_cookies(views(cookies@.take(i as int))),
        decreases cookies.len() - i,
    {
        let ghost t = views(cookies@.take(i + 1));
        proof {
            assert(t.drop_last() =~= views(cookies@.take(i as int)));
            assert(t.last() == cookies@[i as int]@);
        }
        if i > 0 {
            proof { reveal_strlit("; "); }
            buf.append("; ");
            assert(buf@ =~= join_cookies(t.drop_last()) + seq![';', ' ']);
        }
        buf.append(cookies[i].as_str());
        assert(buf@ =~= join_cookies(t));
        i = i + 1;
    }
    assert(cookies@.take(i as int) =~= cookies@);
    buf
}

/// The headers of ordinary requests: the cookies, then the JSON content type,
/// host, referer and accept values of the web endpoint.
pub fn request_headers(cookies: &Vec<String>) -> (r: Vec<(String, String)>)
    ensures
        r@.len() == 5,
        r@[0].0@ == "Cookie"@ && r@[0].1@ == join_cookies(views(cookies@)),
        r@[1].0@ == "ContentType"@ && r@[1].1@ == "application/json; charset=UTF-8"@,
        r@[2].0@ == "Host"@ && r@[2].1@ == "web.wechat.com"@,
        r@[3].0@ == "Referer"@ && r@[3].1@ == "https://web.wechat.com/?&lang=zh_CN"@,
        r@[4].0@ == "Accept"@ && r@[4].1@ == "application/json, text/plain, */*"@,
{
    let mut r: Vec<(String, String)> = Vec::new();
    r.push(("Cookie".to_string(), cookie_header(cookies)));
    r.push(("ContentType".to_string(), "application/json; charset=UTF-8".to_string()));
    r.push(("Host".to_string(), "web.wechat.com".to_string()));
    r.push(("Referer".to_string(), "https://web.wechat.com/?&lang=zh_CN".to_string()));
    r.push(("Accept".to_string(), "application/json, text/plain, */*".to_string()));
    r
}

/// The headers of the sync-check poll: the cookies, with host, accept and
/// referer of the push endpoint.  Built once per loop, since the cookies do
/// not change while it runs.
pub fn sync_headers(cookies: &Vec<String>) -> (r: Vec<(String, String)>)
    ensures
        r@.len() == 4,
        r@[0].0@ == "Cookie"@ && r@[0].1@ == join_cookies(views(cookies@)),
        r@[1].0@ == "Host"@ && r@[1].1@ == "webpush.web.wechat.com"@,
        r@[2].0@ == "Accept"@ && r@[2].1@ == "*/*"@,
        r@[3].0@ == "Referer"@ && r@[3].1@ == "https://webpush.web.wechat.com/?&lang=zh_CN"@,
{
    let mut r: Vec<(String, String)> = Vec::new();
    r.push(("Cookie".to_string(), cookie_header(cookies)));
    r.push(("Host".to_string(), "webpush.web.wechat.com".to_string()));
    r.push(("Accept".to_string(), "*/*".to_string()));
    r.push(("Referer".to_string(), "https://webpush.web.wechat.com/?&lang=zh_CN".to_string()));
    r
}

} // verus!

use vstd::prelude::*;
use crate::text::{occurs_at, occurs_at_exec, is_digit, lemma_run_end, run_end,
    dec_value, digits_value};

verus! {

/// Whether `c` is alphabetic or numeric in Unicode.
pub uninterp spec fn alphanumeric(c: char) -> bool;

/// Whether `c` has the Unicode `White_Space` property.
pub uninterp spec fn whitespace(c: char) -> bool;

/// Relies on `char::is_alphanumeric`: whether `c` is Unicode alphabetic or
/// numeric, a function of `c` alone.
#[verifier::external_body]
fn is_alphanumeric(c: char) -> (r: bool)
    ensures
        r == alphanumeric(c),
{
    c.is_alphanumeric()
}

/// Relies on `char::is_whitespace`: whether `c` has the Unicode `White_Space`
/// property, a function of `c` alone.
#[verifier::external_body]
fn is_whitespace(c: char) -> (r: bool)
    ensures
        r == whitespace(c),
{
    c.is_whitespace()
}

/// Classes of characters that the response patterns scan over.  Word
/// characters are Unicode letters and numbers and `_`; spaces are Unicode
/// white space; digits are the ASCII ones, which are all a number may hold.
#[derive(Clone, Copy, Debug, PartialEq, Eq, Structural)]
pub enum CharClass {
    Digit,
    Word,
    Space,
    NotQuote,
    IdChar,
    NotNewline,
    NotSemicolon,
    Nothing,
}

pub open spec fn in_class(k: CharClass, c: char) -> bool {
    match k {
        CharClass::Digit => is_digit(c),
        CharClass::Word => alphanumeric(c) || c == '_',
        CharClass::Space => whitespace(c),
        CharClass::NotQuote => c != '"',
        CharClass::IdChar => alphanumeric(c) || c == '_' || c == '-' || c == '=',
        CharClass::NotNewline => c != '\n',
        CharClass::NotSemicolon => c != ';',
        CharClass::Nothing => false,
    }
}

pub open spec fn class_fn(k: CharClass) -> spec_fn(char) -> bool {
    |c: char| in_class(k, c)
}

/// End of the run of `k` characters that starts at `i`.
pub open spec fn class_end(s: Seq<char>, i: int, k: CharClass) -> int {
    run_end(s, i, class_fn(k))
}

pub fn in_class_exec(k: CharClass, c: char) -> (r: bool)
    ensures
        r == in_class(k, c),
{
    match k {
        CharClass::Digit => '0' <= c && c <= '9',
        CharClass::Word => is_alphanumeric(c) || c == '_',
        CharClass::Space => is_whitespace(c),
        CharClass::NotQuote => c != '"',
        CharClass::IdChar => is_alphanumeric(c) || c == '_' || c == '-' || c == '=',
        CharClass::NotNewline => c != '\n',
        CharClass::NotSemicolon => c != ';',
        CharClass::Nothing => false,
    }
}

/// Finds the end of the run of `k` characters in `s` that starts at `i`.
pub fn class_end_exec(s: &str, i: usize, k: CharClass) -> (r: usize)
    requires
        i <= s@.len(),
    ensures
        r as int == class_end(s@, i as int, k),
        i <= r <= s@.len(),
        forall|j: int| i <= j < r ==> in_class(k, s@[j]),
        r < s@.len() ==> !in_class(k, s@[r as int]),
{
    proof { lemma_run_end(s@, i as int, class_fn(k)); }
    let n = s.unicode_len();
    let mut j: usize = i;
    while j < n && in_class_exec(k, s.get_char(j))
        invariant
            n == s@.len(),
            i <= j <= n,
            run_end(s@, j as int, class_fn(k)) == class_end(s@, i as int, k),
        decreases n - j,
    {
        j = j + 1;
    }
    j
}

// ---------------------------------------------------------------------------
// Sync-check response: `retcode:"<digits>",selector:"<digits>"`

pub open spec fn retcode_lead() -> Seq<char> {
    seq!['r', 'e', 't', 'c', 'o', 'd', 'e', ':', '"']
}

pub open spec fn selector_lead() -> Seq<char> {
    seq!['"', ',', 's', 'e', 'l', 'e', 'c', 't', 'o', 'r', ':', '"']
}

/// Where the retcode digits end, for a match that starts at `i`.
pub open spec fn retcode_end(s: Seq<char>, i: int) -> int {
    class_end(s, i + 9, CharClass::Digit)
}

/// Where the selector digits end, for a match that starts at `i`.
pub open spec fn selector_end(s: Seq<char>, i: int) -> int {
    class_end(s, retcode_end(s, i) + 12, CharClass::Digit)
}

/// The pattern matches at `i`.
pub open spec fn sync_match(s: Seq<char>, i: int) -> bool {
    let e1 = retcode_end(s, i);
    let e2 = selector_end(s, i);
    &&& occurs_at(s, i, retcode_lead())
    &&& e1 > i + 9
    &&& occurs_at(s, e1, selector_lead())
    &&& e2 > e1 + 12
    &&& e2 < s.len()
    &&& s[e2] == '"'
}

/// The leftmost match is at `i`.
pub open spec fn first_sync_match(s: Seq<char>, i: int) -> bool {
    sync_match(s, i) && forall|k: int| 0 <= k < i ==> !sync_match(s, k)
}

/// Both numbers of the match at `i` fit in a `u64`.
pub open spec fn sync_readable(s: Seq<char>, i: int) -> bool {
    &&& dec_value(s.subrange(i + 9, retcode_end(s, i))) <= u64::MAX
    &&& dec_value(s.subrange(retcode_end(s, i) + 12, selector_end(s, i))) <= u64::MAX
}

/// Reads `(retcode, selector)` from a sync-check response: the leftmost match
/// of `retcode:"<digits>",selector:"<digits>"`.  `None` when there is no
/// match, or when a number of it exceeds `u64::MAX`.
pub fn parse_sync_check(body: &str) -> (r: Option<(u64, u64)>)
    ensures
        match r {
            Some((rc, sel)) => exists|i: int| #[trigger] first_sync_match(body@, i)
                && sync_readable(body@, i)
                && rc as nat == dec_value(body@.subrange(i + 9, retcode_end(body@, i)))
                && sel as nat == dec_value(body@.subrange(retcode_end(body@, i) + 12,
                    selector_end(body@, i))),
            None => forall|i: int| #[trigger] first_sync_match(body@, i) ==> !sync_readable(body@, i),
        },
{
    let n = body.unicode_len();
    let mut i: usize = 0;
    proof { reveal_strlit("retcode:\""); reveal_strlit("\",selector:\""); }
    let lead1 = "retcode:\"";
    let lead2 = "\",selector:\"";
    assert(lead1@ =~= retcode_lead());
    assert(lead2@ =~= selector_lead());
    while i < n
        invariant
            n == body@.len(),
            i <= n,
            lead1@ == retcode_lead(),
            lead2@ == selector_lead(),
            forall|k: int| 0 <= k < i ==> !sync_match(body@, k),
        decreases n - i,
    {
        if occurs_at_exec(body, i, lead1) {
            let a = i + 9;
            let e1 = class_end_exec(body, a, CharClass::Digit);
            if e1 > a && occurs_at_exec(body, e1, lead2) {
                let b = e1 + 12;
                let e2 = class_end_exec(body, b, CharClass::Digit);
                if e2 > b && e2 < n && body.get_char(e2) == '"' {
                    assert(first_sync_match(body@, i as int));
                    let rc = digits_value(body, a, e1);
                    let sel = digits_value(body, b, e2);
                    match (rc, sel) {
                        (Some(rc), Some(sel)) => {
                            return Some((rc, sel));
                        },
                        _ => {
                            proof {
                                assert forall|k: int| #[trigger] first_sync_match(body@, k)
                                    implies !sync_readable(body@, k) by {
                                    assert(k == i);
                                }
                            }
                            return None;
                        },
                    }
                }
            }
        }
        i = i + 1;
    }
    proof {
        assert forall|k: int| #[trigger] first_sync_match(body@, k) implies !sync_readable(body@, k) by {
            if k >= n {
                assert(!occurs_at(body@, k, retcode_lead()));
            }
        }
    }
    None
}

// ---------------------------------------------------------------------------
// Group message content: `^(@\w+):(?:<br/>)*(.*)$`

pub open spec fn line_break_tag() -> Seq<char> {
    seq!['<', 'b', 'r', '/', '>']
}

/// Skips the `<br/>` tags that follow position `i`.
pub open spec fn skip_breaks(s: Seq<char>, i: int) -> int
    decreases s.len() - i,
{
    if 0 <= i && occurs_at(s, i, line_break_tag()) {
        skip_breaks(s, i + 5)
    } else {
        i
    }
}

pub open spec fn no_newline(s: Seq<char>) -> bool {
    forall|k: int| 0 <= k < s.len() ==> s[k] != '\n'
}

/// The real sender and the text of a group message's content, when it starts
/// with `@<word characters>:`; the text follows any `<br/>` tags after the
/// colon and holds no line feed.
pub open spec fn group_split(s: Seq<char>) -> Option<(Seq<char>, Seq<char>)> {
    let e = class_end(s, 1, CharClass::Word);
    let b = skip_breaks(s, e + 1);
    if s.len() > 1 && s[0] == '@' && e > 1 && e < s.len() && s[e] == ':'
        && no_newline(s.subrange(b, s.len() as int)) {
        Some((s.subrange(0, e), s.subrange(b, s.len() as int)))
    } else {
        None
    }
}

proof fn lemma_skip_breaks(s: Seq<char>, i: int)
    requires
        0 <= i <= s.len(),
    ensures
        i <= skip_breaks(s, i) <= s.len(),
    decreases s.len() - i,
{
    if occurs_at(s, i, line_break_tag()) {
        lemma_skip_breaks(s, i + 5);
    }
}

/// Splits a group message's content into its real sender and its text.
pub fn split_group_content(content: &str) -> (r: Option<(String, String)>)
    ensures
        match (r, group_split(content@)) {
            (Some((a, b)), Some((x, y))) => a@ == x && b@ == y,
            (None, None) => true,
            _ => false,
        },
{
    let n = content.unicode_len();
    if n <= 1 || content.get_char(0) != '@' {
        return None;
    }
    let e = class_end_exec(content, 1, CharClass::Word);
    if e <= 1 || e >= n || content.get_char(e) != ':' {
        return None;
    }
    proof { reveal_strlit("<br/>"); }
    let br = "<br/>";
    assert(br@ =~= line_break_tag());
    let mut b: usize = e + 1;
    while occurs_at_exec(content, b, br)
        invariant
            n == content@.len(),
            e < b <= n,
            br@ == line_break_tag(),
            skip_breaks(content@, b as int) == skip_breaks(content@, e + 1),
        decreases n - b,
    {
        b = b + 5;
    }
    assert(skip_breaks(content@, b as int) == b);
    let rest_end = class_end_exec(content, b, CharClass::NotNewline);
    if rest_end < n {
        assert(content@.subrange(b as int, n as int)[rest_end - b] == '\n');
        return None;
    }
    let sender = content.substring_char(0, e);
    let text = content.substring_char(b, n);
    Some((sender.to_string(), text.to_string()))
}

// ---------------------------------------------------------------------------
// Tagged values: `<tag>(.*)</tag>`

/// A match of `open`, then any characters but line feeds, then `close` at `j`,
/// starting at `i`.
pub open spec fn tag_match(s: Seq<char>, open: Seq<char>, close: Seq<char>, i: int, j: int) -> bool {
    let a = i + open.len();
    &&& occurs_at(s, i, open)
    &&& a <= j
    &&& occurs_at(s, j, close)
    &&& j + close.len() <= class_end(s, a, CharClass::NotNewline)
}

/// Some `open ... close` occurs on one line.
pub open spec fn has_tag(s: Seq<char>, open: Seq<char>, close: Seq<char>) -> bool {
    exists|i: int, j: int| tag_match(s, open, close, i, j)
}

/// `v` lies between the leftmost `open` that a `close` follows on its line,
/// and the last such `close`.
pub open spec fn is_tag_value(s: Seq<char>, open: Seq<char>, close: Seq<char>, v: Seq<char>) -> bool {
    exists|i: int, j: int| #[trigger] tag_match(s, open, close, i, j)
        && (forall|k: int, l: int| k < i ==> !tag_match(s, open, close, k, l))
        && (forall|l: int| l > j ==> !tag_match(s, open, close, i, l))
        && v == s.subrange(i + open.len(), j)
}

/// Extracts the text between `open` and `close`: the leftmost `open` that a
/// `close` follows on the same line, and the last such `close`.
pub fn tagged_value(s: &str, open: &str, close: &str) -> (r: Option<String>)
    requires
        open@.len() > 0,
        no_newline(close@),
    ensures
        match r {
            Some(v) => is_tag_value(s@, open@, close@, v@),
            None => !has_tag(s@, open@, close@),
        },
{
    let n = s.unicode_len();
    let ol = open.unicode_len();
    let cl = close.unicode_len();
    let mut i: usize = 0;
    while i < n
        invariant
            n == s@.len(),
            ol == open@.len(),
            cl == close@.len(),
            i <= n,
            forall|k: int, l: int| k < i ==> !tag_match(s@, open@, close@, k, l),
        decreases n - i,
    {
        if occurs_at_exec(s, i, open) {
            let a = i + ol;
            let le = class_end_exec(s, a, CharClass::NotNewline);
            if le >= cl && le - cl >= a {
                let mut j: usize = le - cl;
                loop
                    invariant
                        n == s@.len(),
                        ol == open@.len(),
                        cl == close@.len(),
                        a == i + ol,
                        a <= j <= le - cl,
                        le as int == class_end(s@, a as int, CharClass::NotNewline),
                        occurs_at(s@, i as int, open@),
                        forall|k: int, l: int| k < i ==> !tag_match(s@, open@, close@, k, l),
                        forall|l: int| l > j ==> !tag_match(s@, open@, close@, i as int, l),
                    ensures
                        forall|l: int| l >= a ==> !tag_match(s@, open@, close@, i as int, l),
                    decreases j,
                {
                    if occurs_at_exec(s, j, close) {
                        assert(tag_match(s@, open@, close@, i as int, j as int));
                        let v = s.substring_char(a, j);
                        return Some(v.to_string());
                    }
                    if j == a {
                        break;
                    }
                    j = j - 1;
                }
            }
            assert forall|l: int| !tag_match(s@, open@, close@, i as int, l) by {
                if tag_match(s@, open@, close@, i as int, l) {
                    assert(l >= a && l + cl <= le);
                }
            }
        }
        i = i + 1;
    }
    proof {
        assert forall|k: int, l: int| !tag_match(s@, open@, close@, k, l) by {
            if k >= n && tag_match(s@, open@, close@, k, l) {
                assert(occurs_at(s@, k, open@));
                assert(occurs_at(s@, l, close@));
            }
        }
    }
    None
}

// ---------------------------------------------------------------------------
// Quoted attributes: `name\s*=\s*"(<class>+)"`, or without the spaces

/// Position of the `=` for a match of `name` at `i`.
pub open spec fn attr_eq_pos(s: Seq<char>, name: Seq<char>, spaced: bool, i: int) -> int {
    class_end(s, i + name.len(), if spaced { CharClass::Space } else { CharClass::Nothing })
}

/// Position of the opening quote for a match of `name` at `i`.
pub open spec fn attr_quote_pos(s: Seq<char>, name: Seq<char>, spaced: bool, i: int) -> int {
    class_end(s, attr_eq_pos(s, name, spaced, i) + 1,
        if spaced { CharClass::Space } else { CharClass::Nothing })
}

/// Position of the closing quote for a match of `name` at `i`.
pub open spec fn attr_value_end(s: Seq<char>, name: Seq<char>, spaced: bool, k: CharClass, i: int) -> int {
    class_end(s, attr_quote_pos(s, name, spaced, i) + 1, k)
}

/// `name`, optional spaces, `=`, optional spaces, `"`, one or more `k`
/// characters and `"` occur at `i`.
pub open spec fn attr_match(s: Seq<char>, name: Seq<char>, spaced: bool, k: CharClass, i: int) -> bool {
    let q = attr_eq_pos(s, name, spaced, i);
    let v = attr_quote_pos(s, name, spaced, i);
    let e = attr_value_end(s, name, spaced, k, i);
    &&& occurs_at(s, i, name)
    &&& q < s.len() && s[q] == '='
    &&& v < s.len() && s[v] == '"'
    &&& e > v + 1
    &&& e < s.len() && s[e] == '"'
}

/// `v` is the quoted value at the leftmost match of attribute `name`.
pub open spec fn is_attr_value(s: Seq<char>, name: Seq<char>, spaced: bool, k: CharClass, v: Seq<char>) -> bool {
    exists|i: int| #[trigger] attr_match(s, name, spaced, k, i)
        && (forall|j: int| j < i ==> !attr_match(s, name, spaced, k, j))
        && v == s.subrange(attr_quote_pos(s, name, spaced, i) + 1, attr_value_end(s, name, spaced, k, i))
}

/// Extracts the quoted value of attribute `name` at its leftmost match.
/// Values are runs of `k` characters.
pub fn attr_value(s: &str, name: &str, spaced: bool, k: CharClass) -> (r: Option<String>)
    ensures
        match r {
            Some(v) => is_attr_value(s@, name@, spaced, k, v@),
            None => forall|i: int| !attr_match(s@, name@, spaced, k, i),
        },
{
    let n = s.unicode_len();
    let nl = name.unicode_len();
    let gap = if spaced { CharClass::Space } else { CharClass::Nothing };
    let mut i: usize = 0;
    while i < n
        invariant
            n == s@.len(),
            nl == name@.len(),
            gap == (if spaced { CharClass::Space } else { CharClass::Nothing }),
            i <= n,
            forall|j: int| j < i ==> !attr_match(s@, name@, spaced, k, j),
        decreases n - i,
    {
        if occurs_at_exec(s, i, name) {
            let q = class_end_exec(s, i + nl, gap);
            if q < n && s.get_char(q) == '=' {
                let v = class_end_exec(s, q + 1, gap);
                if v < n && s.get_char(v) == '"' {
                    let e = class_end_exec(s, v + 1, k);
                    if e > v + 1 && e < n && s.get_char(e) == '"' {
                        assert(attr_match(s@, name@, spaced, k, i as int));
                        let val = s.substring_char(v + 1, e);
                        return Some(val.to_string());
                    }
                }
            }
        }
        i = i + 1;
    }
    proof {
        assert forall|j: int| !attr_match(s@, name@, spaced, k, j) by {
            if j >= n && attr_match(s@, name@, spaced, k, j) {
                assert(occurs_at(s@, j, name@));
                let q = attr_eq_pos(s@, name@, spaced, j);
                lemma_run_end(s@, j + name@.len(), class_fn(gap));
            }
        }
    }
    None
}

} // verus!

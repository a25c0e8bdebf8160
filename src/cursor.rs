use vstd::prelude::*;
use crate::text::{dec, dec_value, decimal, digit_char, digit_value, is_digit};

verus! {

/// One channel of the sync cursor: a key and its sequence number.
#[derive(Clone, Copy, Debug, PartialEq, Eq, Structural)]
pub struct SyncKey {
    pub key: u64,
    pub val: u64,
}

/// The cursor in the count-and-list form that the fetch endpoint takes.
#[derive(Clone, Debug)]
pub struct FetchCursor {
    pub count: usize,
    pub list: Vec<SyncKey>,
}

/// `k_v` for one pair.
pub open spec fn pair_text(k: SyncKey) -> Seq<char> {
    dec(k.key as nat) + seq!['_'] + dec(k.val as nat)
}

/// The poll-string form: the pairs' texts joined by `|`.
pub open spec fn poll_form(ks: Seq<SyncKey>) -> Seq<char>
    decreases ks.len(),
{
    if ks.len() == 0 {
        Seq::empty()
    } else if ks.len() == 1 {
        pair_text(ks[0])
    } else {
        poll_form(ks.drop_last()) + seq!['|'] + pair_text(ks.last())
    }
}

/// The pairs that a fetch-form cursor carries, `count` of them.
pub open spec fn fetch_pairs(f: FetchCursor) -> Seq<SyncKey> {
    f.list@.take(f.count as int)
}

/// Encodes the cursor for the poll endpoint as `k_v|k_v|...`.
pub fn poll_string(keys: &Vec<SyncKey>) -> (r: String)
    ensures
        r@ == poll_form(keys@),
{
    let mut buf = String::new();
    let mut i: usize = 0;
    while i < keys.len()
        invariant
            i <= keys@.len(),
            buf@ == poll_form(keys@.take(i as int)),
        decreases keys.len() - i,
    {
        let k = keys[i];
        if i > 0 {
            buf.append("|");
            proof { reveal_strlit("|"); assert("|"@ =~= seq!['|']); }
        }
        let ghost sep = buf@;
        let ks = decimal(k.key);
        let vs = decimal(k.val);
        buf.append(ks.as_str());
        buf.append("_");
        buf.append(vs.as_str());
        proof {
            reveal_strlit("_");
            assert("_"@ =~= seq!['_']);
            assert(buf@ =~= sep + pair_text(k));
            let t = keys@.take(i + 1);
            assert(t.drop_last() =~= keys@.take(i as int));
            assert(t.last() == k);
            if i == 0 {
                assert(buf@ =~= pair_text(k));
            } else {
                assert(buf@ =~= poll_form(t.drop_last()) + seq!['|'] + pair_text(k));
            }
        }
        i = i + 1;
    }
    assert(keys@.take(i as int) =~= keys@);
    buf
}

/// Encodes the cursor for the fetch endpoint: its length and the pairs.
pub fn fetch_cursor(keys: &Vec<SyncKey>) -> (r: FetchCursor)
    ensures
        r.count == keys@.len(),
        r.list@ == keys@,
{
    FetchCursor { count: keys.len(), list: keys.clone() }
}

/// The last index of `c` in `s`, or -1.
pub open spec fn last_index(s: Seq<char>, c: char) -> int
    decreases s.len(),
{
    if s.len() == 0 {
        -1
    } else if s.last() == c {
        s.len() - 1
    } else {
        last_index(s.drop_last(), c)
    }
}

/// Reads one `k_v` pair back.
pub open spec fn decode_pair(t: Seq<char>) -> SyncKey {
    let u = last_index(t, '_');
    SyncKey {
        key: dec_value(t.subrange(0, u)) as u64,
        val: dec_value(t.subrange(u + 1, t.len() as int)) as u64,
    }
}

/// Reads a poll string back into its pairs.
pub open spec fn decode_poll(s: Seq<char>) -> Seq<SyncKey>
    decreases s.len(),
{
    let b = last_index(s, '|');
    if s.len() == 0 {
        Seq::empty()
    } else if b < 0 || b >= s.len() {
        seq![decode_pair(s)]
    } else {
        decode_poll(s.subrange(0, b)).push(decode_pair(s.subrange(b + 1, s.len() as int)))
    }
}

proof fn lemma_digit(d: nat)
    requires
        d < 10,
    ensures
        is_digit(digit_char(d)),
        digit_value(digit_char(d)) == d,
{
}

proof fn lemma_dec(n: nat)
    ensures
        dec(n).len() > 0,
        forall|i: int| 0 <= i < dec(n).len() ==> is_digit(#[trigger] dec(n)[i]),
        dec_value(dec(n)) == n,
    decreases n,
{
    if n < 10 {
        lemma_digit(n);
        assert(dec(n).drop_last() =~= Seq::<char>::empty());
        assert(dec(n).last() == digit_char(n));
        assert(dec_value(dec(n)) == dec_value(Seq::<char>::empty()) * 10 + digit_value(digit_char(n)));
    } else {
        lemma_dec(n / 10);
        lemma_digit(n % 10);
        assert(dec(n).drop_last() =~= dec(n / 10));
        assert(dec(n).last() == digit_char(n % 10));
        assert(dec_value(dec(n)) == dec_value(dec(n / 10)) * 10 + digit_value(digit_char(n % 10)));
        assert(n == (n / 10) * 10 + n % 10);
    }
}

proof fn lemma_last_index(a: Seq<char>, c: char, b: Seq<char>)
    requires
        forall|i: int| 0 <= i < b.len() ==> b[i] != c,
    ensures
        last_index(a + seq![c] + b, c) == a.len(),
    decreases b.len(),
{
    if b.len() == 0 {
        assert(a + seq![c] + b =~= a.push(c));
    } else {
        assert((a + seq![c] + b).drop_last() =~= a + seq![c] + b.drop_last());
        lemma_last_index(a, c, b.drop_last());
    }
}

proof fn lemma_last_index_none(b: Seq<char>, c: char)
    requires
        forall|i: int| 0 <= i < b.len() ==> b[i] != c,
    ensures
        last_index(b, c) == -1,
    decreases b.len(),
{
    if b.len() > 0 {
        lemma_last_index_none(b.drop_last(), c);
    }
}

proof fn lemma_pair(k: SyncKey)
    ensures
        pair_text(k).len() > 0,
        forall|i: int| 0 <= i < pair_text(k).len() ==> pair_text(k)[i] != '|',
        decode_pair(pair_text(k)) == k,
{
    let a = dec(k.key as nat);
    let b = dec(k.val as nat);
    lemma_dec(k.key as nat);
    lemma_dec(k.val as nat);
    lemma_last_index(a, '_', b);
    let t = pair_text(k);
    assert(t.subrange(0, a.len() as int) =~= a);
    assert(t.subrange(a.len() as int + 1, t.len() as int) =~= b);
    assert forall|i: int| 0 <= i < t.len() implies t[i] != '|' by {
        if i < a.len() {
            assert(t[i] == a[i]);
        } else if i > a.len() {
            assert(t[i] == b[i - a.len() - 1]);
        }
    }
}

/// The poll string spells out exactly the pairs of the cursor, in order:
/// reading it back gives the list it was made from.
pub proof fn lemma_poll_round_trip(ks: Seq<SyncKey>)
    ensures
        decode_poll(poll_form(ks)) == ks,
    decreases ks.len(),
{
    if ks.len() == 1 {
        lemma_pair(ks[0]);
        lemma_last_index_none(pair_text(ks[0]), '|');
        assert(seq![ks[0]] =~= ks);
    } else if ks.len() > 1 {
        let a = poll_form(ks.drop_last());
        let t = pair_text(ks.last());
        lemma_pair(ks.last());
        lemma_last_index(a, '|', t);
        lemma_poll_round_trip(ks.drop_last());
        let s = poll_form(ks);
        assert(s =~= a + seq!['|'] + t);
        assert(s.subrange(0, a.len() as int) =~= a);
        assert(s.subrange(a.len() as int + 1, s.len() as int) =~= t);
        assert(ks.drop_last().push(ks.last()) =~= ks);
    }
}

/// The two encodings of one cursor agree: the pairs that the fetch form
/// carries are, in order, those that the poll string reads back to.
pub proof fn lemma_cursor_forms_agree(keys: Seq<SyncKey>, f: FetchCursor)
    requires
        f.count == keys.len(),
        f.list@ == keys,
    ensures
        fetch_pairs(f) == decode_poll(poll_form(keys)),
        fetch_pairs(f).len() == f.count,
{
    assert(f.list@.take(f.count as int) =~= keys);
    lemma_poll_round_trip(keys);
}

} // verus!

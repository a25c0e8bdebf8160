use vstd::prelude::*;

use crate::text::same_text;

verus! {

/// A known contact; immutable once created.
#[derive(Clone, Debug)]
pub struct Contact {
    pub id: String,
    pub name: String,
    pub alias: String,
}

/// A known group chat.  `handle` is the host UI's opaque handle for the chat
/// (0 while none is assigned); `token` is the numeric name the UI uses for it.
#[derive(Clone, Debug)]
pub struct GroupChat {
    pub id: String,
    pub name: String,
    pub alias: String,
    pub handle: u64,
    pub token: u64,
}

/// Modulus of the identifier hash behind chat tokens.
pub const TOKEN_MODULUS: u64 = 1_000_000_007;

/// Polynomial hash of the identifier's characters.
pub open spec fn id_hash(s: Seq<char>) -> nat
    decreases s.len(),
{
    if s.len() == 0 {
        0
    } else {
        (id_hash(s.drop_last()) * 31 + s.last() as nat) % (TOKEN_MODULUS as nat)
    }
}

/// The token of a chat: its identifier's hash plus one, so never zero.
pub open spec fn token_of(s: Seq<char>) -> nat {
    id_hash(s) + 1
}

/// Derives the chat token of identifier `id`.
pub fn chat_token(id: &str) -> (r: u64)
    ensures
        r as nat == token_of(id@),
        r != 0,
{
    let n = id.unicode_len();
    let mut h: u64 = 0;
    let mut i: usize = 0;
    while i < n
        invariant
            n == id@.len(),
            i <= n,
            h as nat == id_hash(id@.take(i as int)),
            h < TOKEN_MODULUS,
        decreases n - i,
    {
        let c = id.get_char(i);
        proof {
            assert(id@.take(i + 1).drop_last() =~= id@.take(i as int));
        }
        h = (h * 31 + c as u64) % TOKEN_MODULUS;
        i = i + 1;
    }
    assert(id@.take(n as int) =~= id@);
    h + 1
}

impl Contact {
    /// A copy of this contact.
    pub fn duplicate(&self) -> (r: Contact)
        ensures
            r == *self,
    {
        Contact { id: self.id.clone(), name: self.name.clone(), alias: self.alias.clone() }
    }
}

impl GroupChat {
    /// A copy of this chat.
    pub fn duplicate(&self) -> (r: GroupChat)
        ensures
            r == *self,
    {
        GroupChat {
            id: self.id.clone(),
            name: self.name.clone(),
            alias: self.alias.clone(),
            handle: self.handle,
            token: self.token,
        }
    }

    /// A chat with no UI handle yet, its token derived from its identifier.
    pub fn new(id: String, name: String, alias: String) -> (r: GroupChat)
        ensures
            r.id@ == id@,
            r.name@ == name@,
            r.alias@ == alias@,
            r.handle == 0,
            r.token as nat == token_of(id@),
    {
        let token = chat_token(id.as_str());
        GroupChat { id, name, alias, handle: 0, token }
    }
}

/// The identifiers of a list of contacts.
pub open spec fn contact_ids(s: Seq<Contact>) -> Seq<Seq<char>> {
    s.map_values(|c: Contact| c.id@)
}

/// The identifiers of a list of chats.
pub open spec fn group_ids(s: Seq<GroupChat>) -> Seq<Seq<char>> {
    s.map_values(|g: GroupChat| g.id@)
}

/// The views of a list of strings.
pub open spec fn views(v: Seq<String>) -> Seq<Seq<char>> {
    v.map_values(|s: String| s@)
}

/// The contacts of `list` whose identifiers are neither in `known` nor earlier
/// in `list`, in list order.
pub open spec fn new_contacts(list: Seq<Contact>, known: Set<Seq<char>>) -> Seq<Contact>
    decreases list.len(),
{
    if list.len() == 0 {
        Seq::empty()
    } else {
        let rest = new_contacts(list.drop_last(), known);
        let id = list.last().id@;
        if known.contains(id) || contact_ids(list.drop_last()).contains(id) {
            rest
        } else {
            rest.push(list.last())
        }
    }
}

/// The chats of `list` whose identifiers are neither in `known` nor earlier in
/// `list`, in list order.
pub open spec fn new_groups(list: Seq<GroupChat>, known: Set<Seq<char>>) -> Seq<GroupChat>
    decreases list.len(),
{
    if list.len() == 0 {
        Seq::empty()
    } else {
        let rest = new_groups(list.drop_last(), known);
        let id = list.last().id@;
        if known.contains(id) || group_ids(list.drop_last()).contains(id) {
            rest
        } else {
            rest.push(list.last())
        }
    }
}

/// The sets of known contacts and group chats, each keyed by identifier.
pub struct Directory {
    pub contacts: Vec<Contact>,
    pub groups: Vec<GroupChat>,
}

impl Directory {
    /// No identifier occurs twice in either list.
    pub open spec fn wf(&self) -> bool {
        &&& contact_ids(self.contacts@).no_duplicates()
        &&& group_ids(self.groups@).no_duplicates()
        &&& forall|j: int| 0 <= j < self.groups@.len()
            ==> (#[trigger] self.groups@[j]).token as nat == token_of(self.groups@[j].id@)
    }

    pub open spec fn contact_id_set(&self) -> Set<Seq<char>> {
        contact_ids(self.contacts@).to_set()
    }

    pub open spec fn group_id_set(&self) -> Set<Seq<char>> {
        group_ids(self.groups@).to_set()
    }

    pub fn new() -> (r: Directory)
        ensures
            r.wf(),
            r.contacts@.len() == 0,
            r.groups@.len() == 0,
    {
        let r = Directory { contacts: Vec::new(), groups: Vec::new() };
        assert(contact_ids(r.contacts@) =~= Seq::empty());
        assert(group_ids(r.groups@) =~= Seq::empty());
        r
    }

    /// Index of the contact with identifier `id`, if known.
    pub fn find_contact(&self, id: &str) -> (r: Option<usize>)
        ensures
            match r {
                Some(i) => i < self.contacts@.len() && self.contacts@[i as int].id@ == id@,
                None => !contact_ids(self.contacts@).contains(id@),
            },
    {
        let mut i: usize = 0;
        while i < self.contacts.len()
            invariant
                i <= self.contacts@.len(),
                forall|j: int| 0 <= j < i ==> self.contacts@[j].id@ != id@,
            decreases self.contacts.len() - i,
        {
            if same_text(self.contacts[i].id.as_str(), id) {
                return Some(i);
            }
            i = i + 1;
        }
        proof {
            if contact_ids(self.contacts@).contains(id@) {
                let j = choose|j: int| 0 <= j < contact_ids(self.contacts@).len()
                    && contact_ids(self.contacts@)[j] == id@;
                assert(self.contacts@[j].id@ == id@);
            }
        }
        None
    }

    /// Index of the chat with identifier `id`, if known.
    pub fn find_chat_by_id(&self, id: &str) -> (r: Option<usize>)
        ensures
            match r {
                Some(i) => i < self.groups@.len() && self.groups@[i as int].id@ == id@,
                None => !group_ids(self.groups@).contains(id@),
            },
    {
        let mut i: usize = 0;
        while i < self.groups.len()
            invariant
                i <= self.groups@.len(),
                forall|j: int| 0 <= j < i ==> self.groups@[j].id@ != id@,
            decreases self.groups.len() - i,
        {
            if same_text(self.groups[i].id.as_str(), id) {
                return Some(i);
            }
            i = i + 1;
        }
        proof {
            if group_ids(self.groups@).contains(id@) {
                let j = choose|j: int| 0 <= j < group_ids(self.groups@).len()
                    && group_ids(self.groups@)[j] == id@;
                assert(self.groups@[j].id@ == id@);
            }
        }
        None
    }

    /// Index of the first chat whose token is `token`, if any.
    pub fn find_chat_by_token(&self, token: u64) -> (r: Option<usize>)
        ensures
            match r {
                Some(i) => i < self.groups@.len() && self.groups@[i as int].token == token
                    && forall|j: int| 0 <= j < i ==> self.groups@[j].token != token,
                None => forall|j: int| 0 <= j < self.groups@.len() ==> self.groups@[j].token != token,
            },
    {
        let mut i: usize = 0;
        while i < self.groups.len()
            invariant
                i <= self.groups@.len(),
                forall|j: int| 0 <= j < i ==> self.groups@[j].token != token,
            decreases self.groups.len() - i,
        {
            if self.groups[i].token == token {
                return Some(i);
            }
            i = i + 1;
        }
        None
    }

    /// Adds `c` unless a contact with its identifier is known; returns whether
    /// it was added, which is when the host must be told of it.
    pub fn add_contact(&mut self, c: Contact) -> (added: bool)
        requires
            old(self).wf(),
        ensures
            final(self).wf(),
            added == !old(self).contact_id_set().contains(c.id@),
            added ==> final(self).contacts@ == old(self).contacts@.push(c),
            !added ==> final(self).contacts@ == old(self).contacts@,
            final(self).groups@ == old(self).groups@,
            final(self).contact_id_set() == old(self).contact_id_set().insert(c.id@),
    {
        match self.find_contact(c.id.as_str()) {
            Some(i) => {
                proof {
                    assert(contact_ids(self.contacts@)[i as int] == c.id@);
                    assert(self.contact_id_set().insert(c.id@) =~= self.contact_id_set());
                }
                false
            },
            None => {
                let ghost before = self.contacts@;
                self.contacts.push(c);
                proof {
                    assert(contact_ids(self.contacts@) =~= contact_ids(before).push(c.id@));
                    contact_ids(before).lemma_push_to_set_commute(c.id@);
                }
                true
            },
        }
    }

    /// Adds `g` unless a chat with its identifier is known; returns whether it
    /// was added, which is when the host must be told of it.
    pub fn add_group(&mut self, g: GroupChat) -> (added: bool)
        requires
            old(self).wf(),
            g.token as nat == token_of(g.id@),
        ensures
            final(self).wf(),
            added == !old(self).group_id_set().contains(g.id@),
            added ==> final(self).groups@ == old(self).groups@.push(g),
            !added ==> final(self).groups@ == old(self).groups@,
            final(self).contacts@ == old(self).contacts@,
            final(self).group_id_set() == old(self).group_id_set().insert(g.id@),
    {
        match self.find_chat_by_id(g.id.as_str()) {
            Some(i) => {
                proof {
                    assert(group_ids(self.groups@)[i as int] == g.id@);
                    assert(self.group_id_set().insert(g.id@) =~= self.group_id_set());
                }
                false
            },
            None => {
                let ghost before = self.groups@;
                self.groups.push(g);
                proof {
                    assert(group_ids(self.groups@) =~= group_ids(before).push(g.id@));
                    group_ids(before).lemma_push_to_set_commute(g.id@);
                }
                true
            },
        }
    }

    /// Adds each contact of `list` in turn and returns the identifiers of those
    /// that were new, in list order: one notification per new identifier, at
    /// its first occurrence, however often it repeats.
    pub fn add_contacts(&mut self, list: &Vec<Contact>) -> (notified: Vec<String>)
        requires
            old(self).wf(),
        ensures
            final(self).wf(),
            final(self).contacts@ == old(self).contacts@ + new_contacts(list@, old(self).contact_id_set()),
            views(notified@) == contact_ids(new_contacts(list@, old(self).contact_id_set())),
            final(self).contact_id_set() == old(self).contact_id_set() + contact_ids(list@).to_set(),
            views(notified@).no_duplicates(),
            notified@.len() == (contact_ids(list@).to_set() - old(self).contact_id_set()).len(),
            final(self).groups@ == old(self).groups@,
    {
        let ghost start = self.contact_id_set();
        let ghost first = self.contacts@;
        let ghost all = list@;
        let mut notified: Vec<String> = Vec::new();
        let n = list.len();
        let mut i: usize = 0;
        while i < n
            invariant
                self.wf(),
                n == all.len(),
                all == list@,
                i <= n,
                self.contacts@ == first + new_contacts(all.take(i as int), start),
                views(notified@) == contact_ids(new_contacts(all.take(i as int), start)),
                self.contact_id_set() == start + contact_ids(all.take(i as int)).to_set(),
                views(notified@).no_duplicates(),
                views(notified@).to_set() == contact_ids(all.take(i as int)).to_set() - start,
                self.groups@ == old(self).groups@,
            decreases n - i,
        {
            let c = list[i].duplicate();
            let id = c.id.clone();
            let ghost old_notified = views(notified@);
            let ghost prefix = all.take(i as int);
            let added = self.add_contact(c);
            proof {
                assert(all.take(i + 1).drop_last() =~= prefix);
                assert(all.take(i + 1).last() == c);
                assert(contact_ids(all.take(i + 1)) =~= contact_ids(prefix).push(id@));
                contact_ids(prefix).lemma_push_to_set_commute(id@);
            }
            if added {
                notified.push(id);
                proof {
                    assert(views(notified@) =~= old_notified.push(id@));
                    old_notified.lemma_push_to_set_commute(id@);
                    assert(!old_notified.contains(id@)) by {
                        if old_notified.contains(id@) {
                            assert(old_notified.to_set().contains(id@));
                        }
                    }
                    assert(contact_ids(new_contacts(prefix, start).push(c))
                        =~= contact_ids(new_contacts(prefix, start)).push(id@));
                }
            }
            proof {
                assert(self.contact_id_set() =~= start + contact_ids(all.take(i + 1)).to_set());
                assert(views(notified@).to_set() =~= contact_ids(all.take(i + 1)).to_set() - start);
            }
            i = i + 1;
        }
        proof {
            assert(all.take(n as int) =~= all);
            views(notified@).unique_seq_to_set();
        }
        notified
    }

    /// Adds each chat of `list` in turn and returns the identifiers of those
    /// that were new, in list order: one notification per new identifier, at
    /// its first occurrence, however often it repeats.
    pub fn add_groups(&mut self, list: &Vec<GroupChat>) -> (notified: Vec<String>)
        requires
            old(self).wf(),
            forall|j: int| 0 <= j < list@.len()
                ==> (#[trigger] list@[j]).token as nat == token_of(list@[j].id@),
        ensures
            final(self).wf(),
            final(self).groups@ == old(self).groups@ + new_groups(list@, old(self).group_id_set()),
            views(notified@) == group_ids(new_groups(list@, old(self).group_id_set())),
            final(self).group_id_set() == old(self).group_id_set() + group_ids(list@).to_set(),
            views(notified@).no_duplicates(),
            notified@.len() == (group_ids(list@).to_set() - old(self).group_id_set()).len(),
            final(self).contacts@ == old(self).contacts@,
    {
        let ghost start = self.group_id_set();
        let ghost first = self.groups@;
        let ghost all = list@;
        let mut notified: Vec<String> = Vec::new();
        let n = list.len();
        let mut i: usize = 0;
        while i < n
            invariant
                self.wf(),
                n == all.len(),
                all == list@,
                i <= n,
                forall|j: int| 0 <= j < list@.len()
                    ==> (#[trigger] list@[j]).token as nat == token_of(list@[j].id@),
                self.groups@ == first + new_groups(all.take(i as int), start),
                views(notified@) == group_ids(new_groups(all.take(i as int), start)),
                self.group_id_set() == start + group_ids(all.take(i as int)).to_set(),
                views(notified@).no_duplicates(),
                views(notified@).to_set() == group_ids(all.take(i as int)).to_set() - start,
                self.contacts@ == old(self).contacts@,
            decreases n - i,
        {
            let g = list[i].duplicate();
            let id = g.id.clone();
            let ghost old_notified = views(notified@);
            let ghost prefix = all.take(i as int);
            let added = self.add_group(g);
            proof {
                assert(all.take(i + 1).drop_last() =~= prefix);
                assert(all.take(i + 1).last() == g);
                assert(group_ids(all.take(i + 1)) =~= group_ids(prefix).push(id@));
                group_ids(prefix).lemma_push_to_set_commute(id@);
            }
            if added {
                notified.push(id);
                proof {
                    assert(views(notified@) =~= old_notified.push(id@));
                    old_notified.lemma_push_to_set_commute(id@);
                    assert(!old_notified.contains(id@)) by {
                        if old_notified.contains(id@) {
                            assert(old_notified.to_set().contains(id@));
                        }
                    }
                    assert(group_ids(new_groups(prefix, start).push(g))
                        =~= group_ids(new_groups(prefix, start)).push(id@));
                }
            }
            proof {
                assert(self.group_id_set() =~= start + group_ids(all.take(i + 1)).to_set());
                assert(views(notified@).to_set() =~= group_ids(all.take(i + 1)).to_set() - start);
            }
            i = i + 1;
        }
        proof {
            assert(all.take(n as int) =~= all);
            views(notified@).unique_seq_to_set();
        }
        notified
    }

    /// Sets the UI handle of the chat with identifier `id`; returns false, and
    /// changes nothing, when no such chat is known.  Membership is unchanged.
    pub fn set_chat_handle(&mut self, id: &str, handle: u64) -> (found: bool)
        requires
            old(self).wf(),
        ensures
            final(self).wf(),
            found == old(self).group_id_set().contains(id@),
            final(self).contacts@ == old(self).contacts@,
            final(self).groups@.len() == old(self).groups@.len(),
            forall|j: int| 0 <= j < old(self).groups@.len() ==> {
                let a = old(self).groups@[j];
                let b = #[trigger] final(self).groups@[j];
                b.id == a.id && b.name == a.name && b.alias == a.alias && b.token == a.token
                    && b.handle == (if a.id@ == id@ { handle } else { a.handle })
            },
    {
        match self.find_chat_by_id(id) {
            Some(i) => {
                let ghost before = self.groups@;
                let mut g = self.groups.remove(i);
                g.handle = handle;
                self.groups.insert(i, g);
                proof {
                    assert forall|j: int| 0 <= j < before.len() && j != i implies
                        before[j].id@ != id@ by {
                        if before[j].id@ == id@ {
                            assert(group_ids(before)[j] == group_ids(before)[i as int]);
                        }
                    }
                    assert(group_ids(self.groups@) =~= group_ids(before));
                    assert(group_ids(before)[i as int] == id@);
                }
                true
            },
            None => {
                proof {
                    assert forall|j: int| 0 <= j < self.groups@.len() implies
                        self.groups@[j].id@ != id@ by {
                        assert(group_ids(self.groups@)[j] == self.groups@[j].id@);
                    }
                }
                false
            },
        }
    }

    /// The token of the chat with identifier `id`, or 0 when it is unknown.
    pub fn find_chat_token(&self, id: &str) -> (r: u64)
        requires
            self.wf(),
        ensures
            r == 0 <==> !self.group_id_set().contains(id@),
            forall|j: int| 0 <= j < self.groups@.len() && self.groups@[j].id@ == id@
                ==> r == self.groups@[j].token,
            forall|j: int| 0 <= j < self.groups@.len() ==> self.groups@[j].token != 0,
    {
        match self.find_chat_by_id(id) {
            Some(i) => {
                proof { self.lemma_unique_group(i as int, id@); }
                self.groups[i].token
            },
            None => {
                proof { self.lemma_absent_group(id@); }
                0
            },
        }
    }

    /// The UI handle of the chat with identifier `name`, or 0 when the chat is
    /// unknown or has no handle yet.
    pub fn find_blist_chat(&self, name: &str) -> (r: u64)
        requires
            self.wf(),
        ensures
            !self.group_id_set().contains(name@) ==> r == 0,
            forall|j: int| 0 <= j < self.groups@.len() && self.groups@[j].id@ == name@
                ==> r == self.groups@[j].handle,
    {
        match self.find_chat_by_id(name) {
            Some(i) => {
                proof { self.lemma_unique_group(i as int, name@); }
                self.groups[i].handle
            },
            None => {
                proof { self.lemma_absent_group(name@); }
                0
            },
        }
    }

    proof fn lemma_absent_group(&self, id: Seq<char>)
        requires
            !group_ids(self.groups@).contains(id),
        ensures
            forall|j: int| 0 <= j < self.groups@.len() ==> self.groups@[j].id@ != id,
            !self.group_id_set().contains(id),
    {
        assert forall|j: int| 0 <= j < self.groups@.len() implies self.groups@[j].id@ != id by {
            assert(group_ids(self.groups@)[j] == self.groups@[j].id@);
        }
    }

    proof fn lemma_unique_group(&self, i: int, id: Seq<char>)
        requires
            self.wf(),
            0 <= i < self.groups@.len(),
            self.groups@[i].id@ == id,
        ensures
            forall|j: int| 0 <= j < self.groups@.len() && self.groups@[j].id@ == id ==> j == i,
            self.group_id_set().contains(id),
    {
        assert(group_ids(self.groups@)[i] == id);
        assert forall|j: int| 0 <= j < self.groups@.len() && self.groups@[j].id@ == id implies j == i by {
            assert(group_ids(self.groups@)[j] == id);
        }
    }
}

} // verus!

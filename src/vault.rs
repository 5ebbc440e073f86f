use vstd::prelude::*;

use crate::secret::wipe_string;

verus! {

/// The abstract value of one entry: three character sequences.
pub struct EntryView {
    pub service: Seq<char>,
    pub username: Seq<char>,
    pub password: Seq<char>,
}

/// One stored credential. The password is a secret.
pub struct PasswordEntry {
    service: String,
    username: String,
    password: String,
}

impl View for PasswordEntry {
    type V = EntryView;

    closed spec fn view(&self) -> EntryView {
        EntryView {
            service: self.service@,
            username: self.username@,
            password: self.password@,
        }
    }
}

/// What `add` reports.
#[derive(Debug, Clone, Copy, PartialEq, Eq, Structural)]
pub enum AddOutcome {
    Added,
    AlreadyPresent,
}

/// What `delete` reports.
#[derive(Debug, Clone, Copy, PartialEq, Eq, Structural)]
pub enum DeleteOutcome {
    Deleted,
    NotFound,
}

/// The version byte that this library writes and accepts.
pub const VAULT_VERSION: u8 = 1;

pub open spec fn key_is(e: EntryView, service: Seq<char>, username: Seq<char>) -> bool {
    e.service == service && e.username == username
}

/// No two entries share a `(service, username)` pair.
pub open spec fn unique_keys(s: Seq<EntryView>) -> bool {
    forall|i: int, j: int|
        0 <= i < j < s.len() ==> !key_is(#[trigger] s[i], s[j].service, #[trigger] s[j].username)
}

pub open spec fn has_key(s: Seq<EntryView>, service: Seq<char>, username: Seq<char>) -> bool {
    exists|i: int| 0 <= i < s.len() && key_is(#[trigger] s[i], service, username)
}

/// The filter of a lookup: no service selects all, a service alone selects
/// that service, a service and a username select that one pair.
pub open spec fn selects(
    e: EntryView,
    service: Option<Seq<char>>,
    username: Option<Seq<char>>,
) -> bool {
    match service {
        None => true,
        Some(s) => e.service == s && match username {
            None => true,
            Some(u) => e.username == u,
        },
    }
}

pub open spec fn select(
    s: Seq<EntryView>,
    service: Option<Seq<char>>,
    username: Option<Seq<char>>,
) -> Seq<EntryView> {
    s.filter(|e: EntryView| selects(e, service, username))
}

pub open spec fn add_spec(
    s: Seq<EntryView>,
    service: Seq<char>,
    username: Seq<char>,
    password: Seq<char>,
) -> (AddOutcome, Seq<EntryView>) {
    if has_key(s, service, username) {
        (AddOutcome::AlreadyPresent, s)
    } else {
        (AddOutcome::Added, s.push(EntryView { service, username, password }))
    }
}

pub open spec fn delete_spec(s: Seq<EntryView>, service: Seq<char>, username: Seq<char>) -> (
    DeleteOutcome,
    Seq<EntryView>,
) {
    if has_key(s, service, username) {
        (DeleteOutcome::Deleted, s.filter(|e: EntryView| !key_is(e, service, username)))
    } else {
        (DeleteOutcome::NotFound, s)
    }
}

pub open spec fn opt_chars(o: Option<String>) -> Option<Seq<char>> {
    match o {
        None => None,
        Some(s) => Some(s@),
    }
}

pub open spec fn entry_views(v: Seq<&PasswordEntry>) -> Seq<EntryView> {
    v.map_values(|e: &PasswordEntry| e@)
}

impl PasswordEntry {
    pub fn new(service: &str, username: &str, password: &str) -> (r: PasswordEntry)
        ensures
            r@ == (EntryView { service: service@, username: username@, password: password@ }),
    {
        PasswordEntry {
            service: service.to_owned(),
            username: username.to_owned(),
            password: password.to_owned(),
        }
    }

    pub fn service(&self) -> (r: &str)
        ensures
            r@ == self@.service,
    {
        self.service.as_str()
    }

    pub fn username(&self) -> (r: &str)
        ensures
            r@ == self@.username,
    {
        self.username.as_str()
    }

    pub fn password(&self) -> (r: &str)
        ensures
            r@ == self@.password,
    {
        self.password.as_str()
    }

    fn has_key(&self, service: &String, username: &String) -> (r: bool)
        ensures
            r == key_is(self@, service@, username@),
    {
        self.service == *service && self.username == *username
    }

    /// Overwrites the three strings with zeros and leaves them empty.
    pub fn wipe(&mut self)
        ensures
            final(self)@.service.len() == 0,
            final(self)@.username.len() == 0,
            final(self)@.password.len() == 0,
        opens_invariants none
        no_unwind
    {
        wipe_string(&mut self.service);
        wipe_string(&mut self.username);
        wipe_string(&mut self.password);
    }
}

/// The vault: a version byte and entries with unique `(service, username)`
/// pairs, kept in the order in which they were added.
pub struct PasswordVault {
    version: u8,
    entries: Vec<PasswordEntry>,
}

impl View for PasswordVault {
    type V = Seq<EntryView>;

    closed spec fn view(&self) -> Seq<EntryView> {
        self.entries@.map_values(|e: PasswordEntry| e@)
    }
}

proof fn lemma_select_step(s: Seq<EntryView>, i: int, pred: spec_fn(EntryView) -> bool)
    requires
        0 <= i < s.len(),
    ensures
        s.subrange(0, i + 1).filter(pred) == if pred(s[i]) {
            s.subrange(0, i).filter(pred).push(s[i])
        } else {
            s.subrange(0, i).filter(pred)
        },
{
    reveal(Seq::filter);
    assert(s.subrange(0, i + 1).drop_last() =~= s.subrange(0, i));
}

proof fn lemma_filter_keeps_all(s: Seq<EntryView>, pred: spec_fn(EntryView) -> bool)
    requires
        forall|i: int| 0 <= i < s.len() ==> pred(#[trigger] s[i]),
    ensures
        s.filter(pred) == s,
    decreases s.len(),
{
    reveal(Seq::filter);
    if s.len() > 0 {
        lemma_filter_keeps_all(s.drop_last(), pred);
        assert(s.drop_last().push(s.last()) =~= s);
    }
}

/// Removing the one entry with a given key is filtering that key out.
proof fn lemma_remove_is_filter(s: Seq<EntryView>, i: int, service: Seq<char>, username: Seq<char>)
    requires
        unique_keys(s),
        0 <= i < s.len(),
        key_is(s[i], service, username),
    ensures
        s.remove(i) == s.filter(|e: EntryView| !key_is(e, service, username)),
{
    let pred = |e: EntryView| !key_is(e, service, username);
    let a = s.subrange(0, i);
    let b = s.subrange(i + 1, s.len() as int);
    assert(s =~= a + seq![s[i]] + b);
    assert(s.remove(i) =~= a + b);
    Seq::filter_distributes_over_add(a + seq![s[i]], b, pred);
    Seq::filter_distributes_over_add(a, seq![s[i]], pred);
    assert forall|j: int| 0 <= j < a.len() implies pred(#[trigger] a[j]) by {
        assert(a[j] == s[j]);
    }
    assert forall|j: int| 0 <= j < b.len() implies pred(#[trigger] b[j]) by {
        assert(b[j] == s[i + 1 + j]);
    }
    lemma_filter_keeps_all(a, pred);
    lemma_filter_keeps_all(b, pred);
    reveal(Seq::filter);
    assert(seq![s[i]].drop_last() =~= Seq::<EntryView>::empty());
    assert(Seq::<EntryView>::empty().filter(pred) =~= Seq::<EntryView>::empty());
    assert(seq![s[i]].last() == s[i]);
    assert(!pred(s[i]));
    assert(seq![s[i]].filter(pred) =~= Seq::<EntryView>::empty());
    assert(a + Seq::<EntryView>::empty() =~= a);
}

proof fn lemma_none_selected(s: Seq<EntryView>, pred: spec_fn(EntryView) -> bool)
    requires
        forall|i: int| 0 <= i < s.len() ==> !pred(#[trigger] s[i]),
    ensures
        s.filter(pred) == Seq::<EntryView>::empty(),
    decreases s.len(),
{
    reveal(Seq::filter);
    if s.len() > 0 {
        lemma_none_selected(s.drop_last(), pred);
    }
    assert(s.filter(pred) =~= Seq::<EntryView>::empty());
}

/// With unique pairs, looking up a service and a username finds at most one entry.
proof fn lemma_pair_lookup_at_most_one(v: Seq<EntryView>, service: Seq<char>, username: Seq<char>)
    requires
        unique_keys(v),
    ensures
        select(v, Some(service), Some(username)).len() <= 1,
    decreases v.len(),
{
    let pred = |x: EntryView| selects(x, Some(service), Some(username));
    if v.len() > 0 {
        let w = v.drop_last();
        assert(unique_keys(w)) by {
            assert forall|i: int, j: int| 0 <= i < j < w.len() implies !key_is(
                #[trigger] w[i],
                w[j].service,
                #[trigger] w[j].username,
            ) by {
                assert(w[i] == v[i] && w[j] == v[j]);
            }
        }
        reveal(Seq::filter);
        if pred(v.last()) {
            assert forall|i: int| 0 <= i < w.len() implies !pred(#[trigger] w[i]) by {
                assert(w[i] == v[i]);
                if pred(w[i]) {
                    assert(key_is(v[i], v[v.len() - 1].service, v[v.len() - 1].username));
                }
            }
            lemma_none_selected(w, pred);
        } else {
            lemma_pair_lookup_at_most_one(w, service, username);
        }
    }
}

/// Adding a pair that is not there reports `Added`; adding the same pair again
/// reports `AlreadyPresent` and changes nothing, and looking the pair up then
/// gives the first password.
pub proof fn lemma_add_twice_keeps_first(
    v: Seq<EntryView>,
    service: Seq<char>,
    username: Seq<char>,
    first: Seq<char>,
    second: Seq<char>,
)
    requires
        unique_keys(v),
        !has_key(v, service, username),
    ensures
        add_spec(v, service, username, first).0 == AddOutcome::Added,
        add_spec(add_spec(v, service, username, first).1, service, username, second) == (
        AddOutcome::AlreadyPresent,
        add_spec(v, service, username, first).1,
        ),
        select(add_spec(v, service, username, first).1, Some(service), Some(username)) == seq![
            EntryView { service, username, password: first },
        ],
{
    let e = EntryView { service, username, password: first };
    let w = v.push(e);
    assert(w[v.len() as int] == e);
    assert(has_key(w, service, username));
    let pred = |x: EntryView| selects(x, Some(service), Some(username));
    assert forall|i: int| 0 <= i < v.len() implies !pred(#[trigger] v[i]) by {
        if pred(v[i]) {
            assert(key_is(v[i], service, username));
        }
    }
    lemma_none_selected(v, pred);
    reveal(Seq::filter);
    assert(w.drop_last() =~= v);
    assert(w.filter(pred) =~= seq![e]);
}

/// After a delete that reports `Deleted`, looking the pair up finds nothing.
pub proof fn lemma_delete_then_lookup_empty(v: Seq<EntryView>, service: Seq<char>, username: Seq<char>)
    requires
        has_key(v, service, username),
    ensures
        delete_spec(v, service, username).0 == DeleteOutcome::Deleted,
        select(delete_spec(v, service, username).1, Some(service), Some(username)) == Seq::<
            EntryView,
        >::empty(),
{
    let notk = |e: EntryView| !key_is(e, service, username);
    let w = v.filter(notk);
    let pred = |x: EntryView| selects(x, Some(service), Some(username));
    assert forall|i: int| 0 <= i < w.len() implies !pred(#[trigger] w[i]) by {
        v.lemma_filter_pred(notk, i);
    }
    lemma_none_selected(w, pred);
}

impl PasswordVault {
    /// Well formed: the current version and unique keys.
    pub closed spec fn wf(&self) -> bool {
        self.version == VAULT_VERSION && unique_keys(self@)
    }

    /// A well-formed vault has unique pairs.
    pub proof fn lemma_wf_unique(&self)
        requires
            self.wf(),
        ensures
            unique_keys(self@),
    {
    }

    pub closed spec fn spec_version(&self) -> u8 {
        self.version
    }

    pub fn new() -> (r: PasswordVault)
        ensures
            r.wf(),
            r@ == Seq::<EntryView>::empty(),
    {
        let r = PasswordVault { version: VAULT_VERSION, entries: Vec::new() };
        assert(r@ =~= Seq::<EntryView>::empty());
        r
    }

    pub fn version(&self) -> (r: u8)
        ensures
            r == self.spec_version(),
            self.wf() ==> r == VAULT_VERSION,
    {
        self.version
    }

    /// The entries, in the order in which they were added.
    pub fn entries(&self) -> (r: &Vec<PasswordEntry>)
        ensures
            r@.map_values(|e: PasswordEntry| e@) == self@,
    {
        &self.entries
    }

    /// Builds a vault from decoded parts: the version must be the current one
    /// and no two entries may share a `(service, username)` pair.
    pub fn from_parts(version: u8, entries: Vec<PasswordEntry>) -> (r: Option<PasswordVault>)
        ensures
            r is Some <==> (version == VAULT_VERSION && unique_keys(
                entries@.map_values(|e: PasswordEntry| e@),
            )),
            r matches Some(v) ==> v.wf() && v@ == entries@.map_values(|e: PasswordEntry| e@),
    {
        if version != VAULT_VERSION {
            return None;
        }
        let ghost s = entries@.map_values(|e: PasswordEntry| e@);
        let mut j: usize = 1;
        while j < entries.len()
            invariant
                s == entries@.map_values(|e: PasswordEntry| e@),
                1 <= j <= entries@.len() || entries@.len() == 0,
                forall|a: int, b: int|
                    0 <= a < b < j && b < s.len() ==> !key_is(
                        #[trigger] s[a],
                        s[b].service,
                        #[trigger] s[b].username,
                    ),
            decreases entries@.len() - j,
        {
            let mut i: usize = 0;
            while i < j
                invariant
                    s == entries@.map_values(|e: PasswordEntry| e@),
                    0 <= i <= j < entries@.len(),
                    forall|a: int, b: int|
                        0 <= a < b < j ==> !key_is(
                            #[trigger] s[a],
                            s[b].service,
                            #[trigger] s[b].username,
                        ),
                    forall|a: int| 0 <= a < i ==> !key_is(#[trigger] s[a], s[j as int].service, s[j as int].username),
                decreases j - i,
            {
                if entries[i].has_key(&entries[j].service, &entries[j].username) {
                    assert(!unique_keys(s)) by {
                        assert(key_is(s[i as int], s[j as int].service, s[j as int].username));
                    }
                    return None;
                }
                i += 1;
            }
            j += 1;
        }
        let v = PasswordVault { version, entries };
        assert(unique_keys(s));
        Some(v)
    }

    fn find(&self, service: &String, username: &String) -> (r: Option<usize>)
        ensures
            r is None <==> !has_key(self@, service@, username@),
            r matches Some(i) ==> i < self@.len() && key_is(self@[i as int], service@, username@),
    {
        let mut i: usize = 0;
        while i < self.entries.len()
            invariant
                i <= self@.len(),
                self@.len() == self.entries@.len(),
                forall|k: int| 0 <= k < i ==> !key_is(#[trigger] self@[k], service@, username@),
            decreases self@.len() - i,
        {
            if self.entries[i].has_key(service, username) {
                assert(key_is(self@[i as int], service@, username@));
                return Some(i);
            }
            i += 1;
        }
        None
    }

    /// Adds an entry unless its `(service, username)` pair is already there,
    /// in which case nothing changes.
    pub fn add(&mut self, service: &str, username: &str, password: &str) -> (r: AddOutcome)
        requires
            old(self).wf(),
        ensures
            final(self).wf(),
            (r, final(self)@) == add_spec(old(self)@, service@, username@, password@),
    {
        let s = service.to_owned();
        let u = username.to_owned();
        match self.find(&s, &u) {
            Some(_) => AddOutcome::AlreadyPresent,
            None => {
                let e = PasswordEntry { service: s, username: u, password: password.to_owned() };
                let ghost before = self@;
                self.entries.push(e);
                assert(self@ =~= before.push(e@));
                AddOutcome::Added
            },
        }
    }

    /// The entries that the filter selects, in the vault's order.
    pub fn get(&self, service: Option<String>, username: Option<String>) -> (r: Vec<&PasswordEntry>)
        ensures
            entry_views(r@) == select(self@, opt_chars(service), opt_chars(username)),
            self.wf() && service is Some && username is Some ==> r@.len() <= 1,
    {
        let ghost pred = |e: EntryView| selects(e, opt_chars(service), opt_chars(username));
        let mut r: Vec<&PasswordEntry> = Vec::new();
        let mut i: usize = 0;
        while i < self.entries.len()
            invariant
                i <= self@.len(),
                self@.len() == self.entries@.len(),
                pred == (|e: EntryView| selects(e, opt_chars(service), opt_chars(username))),
                entry_views(r@) == self@.subrange(0, i as int).filter(pred),
            decreases self@.len() - i,
        {
            let e = &self.entries[i];
            let keep = match &service {
                None => true,
                Some(s) => e.service == *s && match &username {
                    None => true,
                    Some(u) => e.username == *u,
                },
            };
            proof {
                lemma_select_step(self@, i as int, pred);
            }
            if keep {
                let ghost before = r@;
                r.push(e);
                assert(entry_views(r@) =~= entry_views(before).push(e@));
            }
            i += 1;
        }
        assert(self@.subrange(0, self@.len() as int) =~= self@);
        proof {
            if self.wf() && service is Some && username is Some {
                lemma_pair_lookup_at_most_one(self@, service->0@, username->0@);
            }
        }
        r
    }

    /// Removes the entry with the given pair, wiping its strings.
    pub fn delete(&mut self, service: &str, username: &str) -> (r: DeleteOutcome)
        requires
            old(self).wf(),
        ensures
            final(self).wf(),
            (r, final(self)@) == delete_spec(old(self)@, service@, username@),
    {
        let s = service.to_owned();
        let u = username.to_owned();
        match self.find(&s, &u) {
            None => DeleteOutcome::NotFound,
            Some(i) => {
                let ghost before = self@;
                let mut removed = self.entries.remove(i);
                removed.wipe();
                assert(self@ =~= before.remove(i as int));
                proof {
                    lemma_remove_is_filter(before, i as int, service@, username@);
                }
                DeleteOutcome::Deleted
            },
        }
    }

    /// Wipes every entry and leaves the vault empty.
    pub fn wipe(&mut self)
        ensures
            old(self).wf() ==> final(self).wf(),
            final(self)@ == Seq::<EntryView>::empty(),
    {
        while self.entries.len() > 0
            invariant
                old(self).wf() ==> self.wf(),
            decreases self.entries@.len(),
        {
            let ghost before = self@;
            match self.entries.pop() {
                Some(mut e) => {
                    assert(self@ =~= before.drop_last());
                    e.wipe();
                },
                None => {},
            }
        }
        assert(self@ =~= Seq::<EntryView>::empty());
    }
}

impl Drop for PasswordEntry {
    /// Wipes the strings when the entry goes away, with the vault or alone.
    fn drop(&mut self)
        opens_invariants none
        no_unwind
    {
        self.wipe();
    }
}

} // verus!

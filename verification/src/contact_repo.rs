//! The record store: atomic id issuance, the email-uniqueness rule,
//! paginated listing, case-insensitive search, and record CRUD.

use vstd::prelude::*;

use crate::contact_model::{
    contact_valid, email_error, email_only_errors, matches_text, Contact, ContactErrors,
    ContactId, ContactView,
};
use crate::text_match::str_eq;

verus! {

/// Number of records on one page.
pub const PAGE_SIZE: u32 = 10;

/// The mathematical value of a `ContactRepo`: the stored records in order,
/// and the id counter.
pub struct RepoView {
    pub contacts: Seq<ContactView>,
    pub next_id: u32,
}

/// Some record in `s` carries the id.
pub open spec fn has_id(s: Seq<ContactView>, id: u32) -> bool {
    exists|i: int| 0 <= i < s.len() && s[i].id == id
}

/// Some record in `s` owns the email.
pub open spec fn has_email(s: Seq<ContactView>, email: Seq<char>) -> bool {
    exists|i: int| 0 <= i < s.len() && s[i].email == email
}

/// A record other than the one with the given id owns the email.
pub open spec fn email_taken_by_other(s: Seq<ContactView>, id: u32, email: Seq<char>) -> bool {
    exists|i: int| 0 <= i < s.len() && s[i].id != id && s[i].email == email
}

/// The store invariant: no two records share an id, and no two records
/// share an email.
pub open spec fn store_wf(s: Seq<ContactView>) -> bool {
    forall|i: int, j: int|
        0 <= i < j < s.len() ==> s[i].id != s[j].id && s[i].email != s[j].email
}

/// Email uniqueness: in a well-formed store, two records with the same
/// email are the same record.
pub proof fn lemma_email_at_most_one(s: Seq<ContactView>, i: int, j: int)
    requires
        store_wf(s),
        0 <= i < s.len(),
        0 <= j < s.len(),
        s[i].email == s[j].email,
    ensures
        i == j,
{
    if i < j {
        assert(s[i].email != s[j].email);
    } else if j < i {
        assert(s[j].email != s[i].email);
    }
}

/// One success per email among repeated saves: once a save of `c`
/// succeeded — its contract then makes the store `s.push(c)` — the email is
/// owned, so `save`'s contract binds any later save of a record `d` with
/// the same email to the uniqueness error and an unchanged store.
pub proof fn lemma_second_save_same_email_refused(
    s: Seq<ContactView>,
    c: ContactView,
    d: ContactView,
)
    requires
        d.email == c.email,
    ensures
        has_email(s.push(c), d.email),
{
    assert(s.push(c)[s.len() as int] == c);
}

/// Issued ids strictly increase and never repeat, whatever runs in
/// between. The hypotheses are exactly what the contracts give: `pop_id`
/// returns the counter `v0.next_id` and raises it by one to `v1`, the
/// interleaved operations never lower the counter (`save`, `update` and
/// `delete` — a delete of the issued id included — all keep it), and the
/// later pop at `v2` returns that counter. So the later id exceeds the
/// earlier one.
pub proof fn lemma_issued_ids_strictly_increase(
    v0: RepoView,
    v1: RepoView,
    v2: RepoView,
    id1: u32,
    id2: u32,
)
    requires
        id1 == v0.next_id,
        v1.next_id == v0.next_id + 1,
        v2.next_id >= v1.next_id,
        id2 == v2.next_id,
    ensures
        id2 > id1,
{
}

/// The 1-indexed page number actually served: pages below 1 are clamped to 1.
pub open spec fn page_clamped(page: u32) -> int {
    if page < 1 {
        1
    } else {
        page as int
    }
}

/// The slice of `s` that the given 1-indexed page shows: `PAGE_SIZE` records
/// starting after the earlier pages, fewer on the last page, none past the
/// end.
pub open spec fn page_slice(s: Seq<ContactView>, page: u32) -> Seq<ContactView> {
    let start = (page_clamped(page) - 1) * (PAGE_SIZE as int);
    if start >= s.len() {
        Seq::empty()
    } else if start + (PAGE_SIZE as int) <= s.len() {
        s.subrange(start, start + (PAGE_SIZE as int))
    } else {
        s.subrange(start, s.len() as int)
    }
}

/// Page numbers below 1 behave exactly like page 1.
pub proof fn lemma_low_page_clamped(s: Seq<ContactView>, page: u32)
    requires
        page < 1,
    ensures
        page_slice(s, page) == page_slice(s, 1),
{
}

/// A page past the end of the data is empty, never an error.
pub proof fn lemma_page_past_end_empty(s: Seq<ContactView>, page: u32)
    requires
        (page_clamped(page) - 1) * (PAGE_SIZE as int) >= s.len(),
    ensures
        page_slice(s, page) == Seq::<ContactView>::empty(),
{
}

/// The records of `s`, in order, whose `first` or `last` contains the query
/// case-insensitively.
pub open spec fn filter_matching(s: Seq<ContactView>, q: Seq<char>) -> Seq<ContactView>
    decreases s.len(),
{
    if s.len() == 0 {
        Seq::empty()
    } else {
        let rest = filter_matching(s.drop_last(), q);
        if matches_text(s.last(), q) {
            rest.push(s.last())
        } else {
            rest
        }
    }
}

/// Search soundness: every record the filter keeps matches the query and
/// comes from the store.
pub proof fn lemma_filter_matching_sound(s: Seq<ContactView>, q: Seq<char>, i: int)
    requires
        0 <= i < filter_matching(s, q).len(),
    ensures
        matches_text(filter_matching(s, q)[i], q),
        s.contains(filter_matching(s, q)[i]),
    decreases s.len(),
{
    let rest = filter_matching(s.drop_last(), q);
    if matches_text(s.last(), q) && i == rest.len() {
        assert(s[s.len() - 1] == s.last());
    } else {
        lemma_filter_matching_sound(s.drop_last(), q, i);
        let e = filter_matching(s.drop_last(), q)[i];
        let k = choose|k: int| 0 <= k < s.drop_last().len() && s.drop_last()[k] == e;
        assert(s[k] == e);
    }
}

/// Search soundness at the page level: every record on a served page of
/// search results matches the query.
pub proof fn lemma_search_page_sound(s: Seq<ContactView>, q: Seq<char>, page: u32, i: int)
    requires
        0 <= i < page_slice(filter_matching(s, q), page).len(),
    ensures
        matches_text(page_slice(filter_matching(s, q), page)[i], q),
{
    let start = (page_clamped(page) - 1) * (PAGE_SIZE as int);
    lemma_filter_matching_sound(s, q, start + i);
}

/// Durable storage of contact records under a global email-uniqueness
/// invariant and an always-increasing id sequence.
pub struct ContactRepo {
    records: Vec<Contact>,
    next_id: u32,
}

impl View for ContactRepo {
    type V = RepoView;

    closed spec fn view(&self) -> RepoView {
        RepoView { contacts: self.records.deep_view(), next_id: self.next_id }
    }
}

impl ContactRepo {
    /// The store invariant holds of the stored records.
    pub open spec fn wf(&self) -> bool {
        store_wf(self@.contacts)
    }

    /// An empty store whose id counter starts at zero.
    pub fn build() -> (s: Self)
        ensures
            s.wf(),
            s@.contacts == Seq::<ContactView>::empty(),
            s@.next_id == 0,
    {
        let s = ContactRepo { records: Vec::new(), next_id: 0 };
        proof {
            assert(s@.contacts =~= Seq::<ContactView>::empty());
        }
        s
    }

    /// A store seeded with `n` randomly drawn records under ids `0..n`, as
    /// one atomic batch; a record whose random email collides with an
    /// earlier one is skipped, so up to `n` records are kept, in id order.
    /// The first draw always commits (nothing can collide in an empty
    /// store), and the id counter resumes at `n`.
    pub fn build_with_fake_data(n: u32) -> (s: Self)
        ensures
            s.wf(),
            s@.next_id == n,
            s@.contacts.len() <= n,
            n > 0 ==> s@.contacts.len() >= 1 && s@.contacts[0].id == 0,
            forall|i: int, j: int|
                0 <= i < j < s@.contacts.len() ==> s@.contacts[i].id < s@.contacts[j].id,
            forall|i: int| 0 <= i < s@.contacts.len() ==> s@.contacts[i].id < n,
    {
        let mut repo = Self::build();
        let mut id: u32 = 0;
        while id < n
            invariant
                repo.wf(),
                id <= n,
                repo@.contacts.len() <= id,
                id > 0 ==> repo@.contacts.len() >= 1 && repo@.contacts[0].id == 0,
                forall|i: int, j: int|
                    0 <= i < j < repo@.contacts.len() ==> repo@.contacts[i].id
                        < repo@.contacts[j].id,
                forall|i: int| 0 <= i < repo@.contacts.len() ==> repo@.contacts[i].id < id,
            decreases n - id,
        {
            let contact = Contact::new_fake(ContactId::new(id));
            let ghost pre = repo@.contacts;
            let _committed = repo.execute_save(&contact);
            proof {
                if pre.len() == 0 {
                    assert(!has_id(pre, contact@.id));
                    assert(!has_email(pre, contact@.email));
                    assert(repo@.contacts == pre.push(contact@));
                    assert(repo@.contacts[0] == contact@);
                }
                if _committed {
                    assert forall|a: int, b: int|
                        0 <= a < b < repo@.contacts.len() implies repo@.contacts[a].id
                        < repo@.contacts[b].id by {
                        if b == pre.len() as int {
                            assert(repo@.contacts[a] == pre[a]);
                            assert(repo@.contacts[b] == contact@);
                        } else {
                            assert(repo@.contacts[a] == pre[a]);
                            assert(repo@.contacts[b] == pre[b]);
                        }
                    }
                    if pre.len() > 0 {
                        assert(repo@.contacts[0] == pre[0]);
                    }
                }
            }
            id = id + 1;
        }
        repo.next_id = n;
        repo
    }

    /// Atomically issues the next id: strictly increasing for the process's
    /// lifetime, never reused, and never re-derived from storage.
    pub fn pop_id(&mut self) -> (id: ContactId)
        requires
            old(self)@.next_id < u32::MAX,
        ensures
            id@ == old(self)@.next_id,
            final(self)@.next_id == old(self)@.next_id + 1,
            final(self)@.contacts == old(self)@.contacts,
    {
        let id = ContactId::new(self.next_id);
        self.next_id = self.next_id + 1;
        id
    }

    /// The id the next `pop_id` call will issue, without issuing it. Lets a
    /// caller check `pop_id`'s headroom precondition before issuing.
    pub fn next_id(&self) -> (n: u32)
        ensures
            n == self@.next_id,
    {
        self.next_id
    }

    /// The number of stored records.
    pub fn count(&self) -> (n: usize)
        ensures
            n == self@.contacts.len(),
    {
        self.records.len()
    }

    /// A snapshot of every stored record, in storage order.
    pub fn all(&self) -> (v: Vec<Contact>)
        ensures
            v.deep_view() == self@.contacts,
    {
        let n = self.records.len();
        let mut out: Vec<Contact> = Vec::new();
        let mut i: usize = 0;
        while i < n
            invariant
                n == self.records@.len(),
                i <= n,
                out@ == self.records@.subrange(0, i as int),
            decreases n - i,
        {
            let c = self.records[i].clone();
            out.push(c);
            proof {
                assert(out@ =~= self.records@.subrange(0, i + 1));
            }
            i = i + 1;
        }
        proof {
            assert(out@ =~= self.records@);
            assert(out.deep_view() =~= self@.contacts);
        }
        out
    }

    /// One 1-indexed page of all records: pages below 1 serve page 1, pages
    /// past the end are empty.
    pub fn all_by_page(&self, page: u32) -> (v: Vec<Contact>)
        ensures
            v.deep_view() == page_slice(self@.contacts, page),
    {
        page_of(&self.records, page)
    }

    /// One 1-indexed page of the records whose `first` or `last` contains
    /// the query case-insensitively; the empty query filters nothing out.
    pub fn search(&self, q: &str, page: u32) -> (v: Vec<Contact>)
        ensures
            v.deep_view() == page_slice(filter_matching(self@.contacts, q@), page),
            q@.len() == 0 ==> v.deep_view() == page_slice(self@.contacts, page),
    {
        let n = self.records.len();
        let mut matched: Vec<Contact> = Vec::new();
        let mut i: usize = 0;
        while i < n
            invariant
                n == self.records@.len(),
                i <= n,
                matched.deep_view() == filter_matching(
                    self.records.deep_view().subrange(0, i as int),
                    q@,
                ),
                q@.len() == 0 ==> matched@ == self.records@.subrange(0, i as int),
            decreases n - i,
        {
            let ghost pre = matched.deep_view();
            let ghost pre_shallow = matched@;
            let c = &self.records[i];
            let is_match = c.match_text(q);
            if is_match {
                matched.push(c.clone());
                proof {
                    assert(matched.deep_view() =~= pre.push(c.deep_view()));
                    assert(matched@ =~= pre_shallow.push(self.records@[i as int]));
                }
            }
            proof {
                let s = self.records.deep_view();
                let t = s.subrange(0, i + 1);
                assert(t.drop_last() =~= s.subrange(0, i as int));
                assert(t.last() == c.deep_view());
                if q@.len() == 0 {
                    assert(matched@ =~= self.records@.subrange(0, i + 1));
                }
            }
            i = i + 1;
        }
        proof {
            assert(self.records.deep_view().subrange(0, n as int) =~= self@.contacts);
            if q@.len() == 0 {
                assert(matched@ =~= self.records@);
                assert(matched.deep_view() =~= self@.contacts);
            }
        }
        page_of(&matched, page)
    }

    /// The record carrying the id, if any.
    pub fn find(&self, id: ContactId) -> (r: Option<Contact>)
        ensures
            match r {
                Some(c) => c@.id == id@ && self@.contacts.contains(c@),
                None => !has_id(self@.contacts, id@),
            },
    {
        match self.index_of_id(id.value()) {
            Some(i) => {
                let c = self.records[i].clone();
                proof {
                    assert(self@.contacts[i as int] == c.deep_view());
                }
                Some(c)
            },
            None => None,
        }
    }

    /// The record owning the email, if any.
    pub fn find_by_email(&self, email: String) -> (r: Option<Contact>)
        ensures
            match r {
                Some(c) => c@.email == email@ && self@.contacts.contains(c@),
                None => !has_email(self@.contacts, email@),
            },
    {
        let n = self.records.len();
        let mut i: usize = 0;
        while i < n
            invariant
                n == self.records@.len(),
                i <= n,
                forall|k: int| 0 <= k < i ==> self.records.deep_view()[k].email != email@,
            decreases n - i,
        {
            if str_eq(self.records[i].email(), email.as_str()) {
                let c = self.records[i].clone();
                proof {
                    assert(self@.contacts[i as int] == c.deep_view());
                }
                return Some(c);
            }
            i = i + 1;
        }
        None
    }

    /// Validates and persists a new record. A uniqueness conflict at commit
    /// is reported as the same structured business error the live check
    /// produces, never as an infrastructure failure.
    pub fn save(&mut self, contact: &Contact) -> (r: Result<(), ContactErrors>)
        requires
            old(self).wf(),
        ensures
            final(self).wf(),
            final(self)@.next_id == old(self)@.next_id,
            match r {
                Ok(()) => contact_valid(contact@) && !has_id(old(self)@.contacts, contact@.id)
                    && !has_email(old(self)@.contacts, contact@.email)
                    && final(self)@.contacts == old(self)@.contacts.push(contact@),
                Err(e) => final(self)@ == old(self)@ && !(contact_valid(contact@) && !has_id(
                    old(self)@.contacts,
                    contact@.id,
                ) && !has_email(old(self)@.contacts, contact@.email)) && e@ == (
                if !contact_valid(contact@) {
                    email_only_errors(email_error(contact@.email))
                } else {
                    email_only_errors(Some(msg_email_unique()))
                }),
            },
    {
        if let Err(errors) = contact.validate() {
            return Err(errors);
        }
        if !self.execute_save(contact) {
            return Err(
                ContactErrors {
                    first: None,
                    last: None,
                    phone: None,
                    email: Some(String::from_str("Email Must Be Unique")),
                },
            );
        }
        Ok(())
    }

    /// Validates and persists a full overwrite keyed by `id`. Updating a
    /// missing id is a silent no-op. A record may keep its own email, but
    /// moving to an email another record owns is refused with the same
    /// structured uniqueness error the live check and `save` produce: the
    /// one uniqueness rule, at every boundary, is a business error.
    pub fn update(&mut self, contact: &Contact) -> (r: Result<(), ContactErrors>)
        requires
            old(self).wf(),
        ensures
            final(self).wf(),
            final(self)@.next_id == old(self)@.next_id,
            match r {
                Ok(()) => contact_valid(contact@) && (
                if has_id(old(self)@.contacts, contact@.id) {
                    !email_taken_by_other(old(self)@.contacts, contact@.id, contact@.email) && (
                    exists|i: int|
                        0 <= i < old(self)@.contacts.len() && old(self)@.contacts[i].id
                            == contact@.id && final(self)@.contacts == old(self)@.contacts.update(
                            i,
                            contact@,
                        ))
                } else {
                    final(self)@ == old(self)@
                }),
                Err(e) => final(self)@ == old(self)@ && !(contact_valid(contact@) && !(has_id(
                    old(self)@.contacts,
                    contact@.id,
                ) && email_taken_by_other(old(self)@.contacts, contact@.id, contact@.email)))
                    && e@ == (if !contact_valid(contact@) {
                    email_only_errors(email_error(contact@.email))
                } else {
                    email_only_errors(Some(msg_email_unique()))
                }),
            },
    {
        if let Err(errors) = contact.validate() {
            return Err(errors);
        }
        if !self.execute_update(contact) {
            return Err(
                ContactErrors {
                    first: None,
                    last: None,
                    phone: None,
                    email: Some(String::from_str("Email Must Be Unique")),
                },
            );
        }
        Ok(())
    }

    /// Removes the record carrying the id; deleting a missing id is a
    /// silent no-op. The id counter never goes back.
    pub fn delete(&mut self, contact_id: ContactId)
        requires
            old(self).wf(),
        ensures
            final(self).wf(),
            final(self)@.next_id == old(self)@.next_id,
            if has_id(old(self)@.contacts, contact_id@) {
                exists|i: int|
                    0 <= i < old(self)@.contacts.len() && old(self)@.contacts[i].id == contact_id@
                        && final(self)@.contacts == old(self)@.contacts.remove(i)
            } else {
                final(self)@ == old(self)@
            },
    {
        let idx = self.index_of_id(contact_id.value());
        match idx {
            Some(i) => {
                let ghost s = self@.contacts;
                self.records.remove(i);
                proof {
                    let t = s.remove(i as int);
                    assert(final(self)@.contacts =~= t);
                    assert forall|a: int, b: int| 0 <= a < b < t.len() implies t[a].id != t[b].id
                        && t[a].email != t[b].email by {
                        let a0 = if a < i { a } else { a + 1 };
                        let b0 = if b < i { b } else { b + 1 };
                        assert(t[a] == s[a0]);
                        assert(t[b] == s[b0]);
                    }
                }
            },
            None => {},
        }
    }

    /// The live email check: no error exactly when the email is acceptable
    /// and either unowned or owned by the candidate record itself. The
    /// commit path enforces the same rule.
    pub fn validate_email(&self, contact_id: Option<ContactId>, email: String) -> (r: Option<
        String,
    >)
        requires
            self.wf(),
        ensures
            r.deep_view() == uniqueness_check(self@.contacts, contact_id.deep_view(), email@),
    {
        if let Some(err) = Contact::validate_email(email.as_str()) {
            return Some(err);
        }
        let found = self.find_by_email(email);
        match found {
            None => None,
            Some(c) => {
                let ghost s = self@.contacts;
                let ghost k = choose|k: int| 0 <= k < s.len() && s[k] == c@;
                match contact_id {
                    Some(cid) => {
                        if cid.value() == c.id().value() {
                            proof {
                                assert(s[k].email == email@ && contact_id.deep_view() == Some(
                                    s[k].id,
                                ));
                            }
                            None
                        } else {
                            proof {
                                lemma_owner_mismatch(s, c@, cid@, email@);
                            }
                            Some(String::from_str("Email Must Be Unique"))
                        }
                    },
                    None => Some(String::from_str("Email Must Be Unique")),
                }
            },
        }
    }

    /// The index of the record carrying the id, if any.
    fn index_of_id(&self, id: u32) -> (r: Option<usize>)
        ensures
            match r {
                Some(i) => 0 <= i < self@.contacts.len() && self@.contacts[i as int].id == id,
                None => !has_id(self@.contacts, id),
            },
    {
        let n = self.records.len();
        let mut i: usize = 0;
        while i < n
            invariant
                n == self.records@.len(),
                i <= n,
                forall|k: int| 0 <= k < i ==> self.records.deep_view()[k].id != id,
            decreases n - i,
        {
            if self.records[i].id().value() == id {
                return Some(i);
            }
            i = i + 1;
        }
        None
    }

    /// Whether the record's id or email is already present.
    fn has_conflict(&self, contact: &Contact) -> (b: bool)
        ensures
            b == (has_id(self@.contacts, contact@.id) || has_email(
                self@.contacts,
                contact@.email,
            )),
    {
        let n = self.records.len();
        let mut i: usize = 0;
        while i < n
            invariant
                n == self.records@.len(),
                i <= n,
                forall|k: int|
                    0 <= k < i ==> self.records.deep_view()[k].id != contact@.id
                        && self.records.deep_view()[k].email != contact@.email,
            decreases n - i,
        {
            if self.records[i].id().value() == contact.id().value() {
                proof {
                    assert(self@.contacts[i as int].id == contact@.id);
                    assert(has_id(self@.contacts, contact@.id));
                }
                return true;
            }
            if str_eq(self.records[i].email(), contact.email()) {
                proof {
                    assert(self@.contacts[i as int].email == contact@.email);
                    assert(has_email(self@.contacts, contact@.email));
                }
                return true;
            }
            i = i + 1;
        }
        false
    }

    /// The commit step of `save`: refuses a record whose id or email is
    /// already present, else appends it.
    fn execute_save(&mut self, contact: &Contact) -> (ok: bool)
        requires
            old(self).wf(),
        ensures
            final(self).wf(),
            final(self)@.next_id == old(self)@.next_id,
            ok == (!has_id(old(self)@.contacts, contact@.id) && !has_email(
                old(self)@.contacts,
                contact@.email,
            )),
            ok ==> final(self)@.contacts == old(self)@.contacts.push(contact@),
            !ok ==> final(self)@ == old(self)@,
    {
        if self.has_conflict(contact) {
            return false;
        }
        let ghost s = self@.contacts;
        self.records.push(contact.clone());
        proof {
            let t = s.push(contact@);
            assert(final(self)@.contacts =~= t);
            assert forall|a: int, b: int| 0 <= a < b < t.len() implies t[a].id != t[b].id
                && t[a].email != t[b].email by {
                if b == s.len() as int {
                    assert(t[a] == s[a]);
                    assert(t[b] == contact@);
                    assert(s[a].id != contact@.id);
                    assert(s[a].email != contact@.email);
                } else {
                    assert(t[a] == s[a]);
                    assert(t[b] == s[b]);
                }
            }
        }
        true
    }

    /// The commit step of `update`: a full overwrite of the record keyed by
    /// the id; no row, no effect; refuses an email another record owns.
    fn execute_update(&mut self, contact: &Contact) -> (ok: bool)
        requires
            old(self).wf(),
        ensures
            final(self).wf(),
            final(self)@.next_id == old(self)@.next_id,
            ok == !(has_id(old(self)@.contacts, contact@.id) && email_taken_by_other(
                old(self)@.contacts,
                contact@.id,
                contact@.email,
            )),
            ok ==> (if has_id(old(self)@.contacts, contact@.id) {
                exists|i: int|
                    0 <= i < old(self)@.contacts.len() && old(self)@.contacts[i].id == contact@.id
                        && final(self)@.contacts == old(self)@.contacts.update(i, contact@)
            } else {
                final(self)@ == old(self)@
            }),
            !ok ==> final(self)@ == old(self)@,
    {
        let idx = self.index_of_id(contact.id().value());
        let i = match idx {
            Some(i) => i,
            None => {
                return true;
            },
        };
        if self.email_conflicts(contact.id().value(), contact.email()) {
            return false;
        }
        let ghost s = self@.contacts;
        self.records.set(i, contact.clone());
        proof {
            let t = s.update(i as int, contact@);
            assert(final(self)@.contacts =~= t);
            assert forall|a: int, b: int| 0 <= a < b < t.len() implies t[a].id != t[b].id
                && t[a].email != t[b].email by {
                if a != i && b != i {
                    assert(t[a] == s[a]);
                    assert(t[b] == s[b]);
                } else if b == i {
                    assert(t[a] == s[a]);
                    assert(t[b] == contact@);
                    assert(s[a].id != s[i as int].id);
                    if s[a].email == contact@.email {
                        assert(email_taken_by_other(s, contact@.id, contact@.email));
                    }
                } else {
                    assert(t[a] == contact@);
                    assert(t[b] == s[b]);
                    assert(s[i as int].id != s[b].id);
                    if s[b].email == contact@.email {
                        assert(email_taken_by_other(s, contact@.id, contact@.email));
                    }
                }
            }
        }
        true
    }

    /// Whether a record other than the one with the given id owns the email.
    fn email_conflicts(&self, id: u32, email: &str) -> (b: bool)
        ensures
            b == email_taken_by_other(self@.contacts, id, email@),
    {
        let n = self.records.len();
        let mut i: usize = 0;
        while i < n
            invariant
                n == self.records@.len(),
                i <= n,
                forall|k: int|
                    0 <= k < i ==> !(self.records.deep_view()[k].id != id
                        && self.records.deep_view()[k].email == email@),
            decreases n - i,
        {
            if self.records[i].id().value() != id && str_eq(self.records[i].email(), email) {
                proof {
                    assert(self@.contacts[i as int].id != id && self@.contacts[i as int].email
                        == email@);
                    assert(email_taken_by_other(self@.contacts, id, email@));
                }
                return true;
            }
            i = i + 1;
        }
        false
    }
}

/// The uniqueness rule in one place: no message exactly when the email is
/// non-empty, well-formed, and either unowned or owned by the candidate.
pub open spec fn uniqueness_check(
    s: Seq<ContactView>,
    candidate: Option<u32>,
    email: Seq<char>,
) -> Option<Seq<char>> {
    if email_error(email) is Some {
        email_error(email)
    } else if !has_email(s, email) {
        None
    } else if exists|i: int|
        0 <= i < s.len() && s[i].email == email && candidate == Some(s[i].id) {
        None
    } else {
        Some(msg_email_unique())
    }
}

pub open spec fn msg_email_unique() -> Seq<char> {
    "Email Must Be Unique"@
}

/// In a well-formed store, if the record `c` owns `email` and the candidate
/// id differs from `c`'s id, then no record owning `email` has the
/// candidate's id.
proof fn lemma_owner_mismatch(s: Seq<ContactView>, c: ContactView, cid: u32, email: Seq<char>)
    requires
        store_wf(s),
        s.contains(c),
        c.email == email,
        cid != c.id,
    ensures
        !(exists|i: int| 0 <= i < s.len() && s[i].email == email && Some(cid) == Some(s[i].id)),
{
    let k = choose|k: int| 0 <= k < s.len() && s[k] == c;
    if exists|i: int| 0 <= i < s.len() && s[i].email == email && Some(cid) == Some(s[i].id) {
        let i = choose|i: int|
            0 <= i < s.len() && s[i].email == email && Some(cid) == Some(s[i].id);
        lemma_email_at_most_one(s, i, k);
    }
}

/// One 1-indexed page of the given records.
fn page_of(records: &Vec<Contact>, page: u32) -> (v: Vec<Contact>)
    ensures
        v.deep_view() == page_slice(records.deep_view(), page),
{
    let p: u32 = if page == 0 {
        1
    } else {
        page
    };
    let len = records.len();
    let start64: u64 = (p as u64 - 1) * (PAGE_SIZE as u64);
    let mut out: Vec<Contact> = Vec::new();
    if start64 >= len as u64 {
        proof {
            assert(out.deep_view() =~= page_slice(records.deep_view(), page));
        }
        return out;
    }
    let start = start64 as usize;
    let end: usize = if len - start > (PAGE_SIZE as usize) {
        start + (PAGE_SIZE as usize)
    } else {
        len
    };
    let mut i = start;
    while i < end
        invariant
            start <= i <= end <= len,
            len == records@.len(),
            out@ == records@.subrange(start as int, i as int),
        decreases end - i,
    {
        let c = records[i].clone();
        out.push(c);
        proof {
            assert(out@ =~= records@.subrange(start as int, i + 1));
        }
        i = i + 1;
    }
    proof {
        assert(out.deep_view() =~= page_slice(records.deep_view(), page));
    }
    out
}

} // verus!

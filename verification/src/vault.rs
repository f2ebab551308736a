//! The plaintext vault: an ordered list of entries whose identifiers are unique.

use std::collections::HashSet;
use vstd::prelude::*;

verus! {

/// One record of a vault. The identifier is fixed when the entry is made; the other fields
/// may be edited freely.
#[derive(Debug)]
pub struct Entry {
    id: u64,
    pub title: String,
    pub username: String,
    pub password: String,
}

/// What an [`Entry`] holds, as mathematical values.
pub struct EntryView {
    pub id: u64,
    pub title: Seq<char>,
    pub username: Seq<char>,
    pub password: Seq<char>,
}

impl View for Entry {
    type V = EntryView;

    closed spec fn view(&self) -> EntryView {
        EntryView {
            id: self.id,
            title: self.title@,
            username: self.username@,
            password: self.password@,
        }
    }
}

impl Entry {
    pub fn new(id: u64, title: String, username: String, password: String) -> (entry: Entry)
        ensures
            entry@ == (EntryView {
                id,
                title: title@,
                username: username@,
                password: password@,
            }),
    {
        Entry { id, title, username, password }
    }

    pub fn id(&self) -> (id: u64)
        ensures
            id == self@.id,
    {
        self.id
    }

    pub fn title(&self) -> (title: &String)
        ensures
            title@ == self@.title,
    {
        &self.title
    }

    pub fn username(&self) -> (username: &String)
        ensures
            username@ == self@.username,
    {
        &self.username
    }

    pub fn password(&self) -> (password: &String)
        ensures
            password@ == self@.password,
    {
        &self.password
    }

    /// Whether the two entries agree in every field.
    pub fn same_content(&self, other: &Entry) -> (same: bool)
        ensures
            same == (self@ == other@),
    {
        self.id == other.id && self.title == other.title && self.username == other.username
            && self.password == other.password
    }

    /// Replaces the password and leaves the rest of the entry as it was.
    pub fn save_password(&mut self, password: &str)
        ensures
            final(self)@ == (EntryView { password: password@, ..old(self)@ }),
    {
        self.password = password.to_owned();
    }
}

impl Clone for Entry {
    fn clone(&self) -> (copy: Entry)
        ensures
            copy@ == self@,
    {
        Entry {
            id: self.id,
            title: self.title.clone(),
            username: self.username.clone(),
            password: self.password.clone(),
        }
    }
}

/// Two entries are the same entry when their identifiers agree, whatever the other fields hold.
impl PartialEq for Entry {
    fn eq(&self, other: &Entry) -> (same: bool) {
        self.id == other.id
    }
}

impl vstd::std_specs::cmp::PartialEqSpecImpl for Entry {
    open spec fn obeys_eq_spec() -> bool {
        true
    }

    open spec fn eq_spec(&self, other: &Entry) -> bool {
        self@.id == other@.id
    }
}

/// Some entry of `entries` has the identifier `id`.
pub open spec fn has_id(entries: Seq<EntryView>, id: u64) -> bool {
    exists|i: int| 0 <= i < entries.len() && #[trigger] entries[i].id == id
}

/// No identifier occurs twice in `entries`.
pub open spec fn distinct_ids(entries: Seq<EntryView>) -> bool {
    forall|i: int, j: int|
        0 <= i < j < entries.len() ==> #[trigger] entries[i].id != #[trigger] entries[j].id
}

/// The identifier that the next new entry gets: one more than the largest identifier in
/// `entries`, and zero when there is none.
pub open spec fn next_id(entries: Seq<EntryView>) -> int
    decreases entries.len(),
{
    if entries.len() == 0 {
        0
    } else {
        let rest = next_id(entries.drop_last());
        if entries.last().id + 1 > rest {
            entries.last().id + 1
        } else {
            rest
        }
    }
}

/// `entries` after a new entry with these fields has been added: it goes to the end, under
/// the next identifier.
pub open spec fn added(
    entries: Seq<EntryView>,
    title: Seq<char>,
    username: Seq<char>,
    password: Seq<char>,
) -> Seq<EntryView> {
    entries.push(EntryView { id: next_id(entries) as u64, title, username, password })
}

/// The vault that results from adding one entry for each item of `fields`, in order, to an
/// empty vault. An item holds a title, a user name and a password.
pub open spec fn added_all(fields: Seq<(Seq<char>, Seq<char>, Seq<char>)>) -> Seq<EntryView>
    decreases fields.len(),
{
    if fields.len() == 0 {
        Seq::empty()
    } else {
        added(added_all(fields.drop_last()), fields.last().0, fields.last().1, fields.last().2)
    }
}

/// `entries` without the entries whose identifier is `id`, the others in their order.
pub open spec fn without_id(entries: Seq<EntryView>, id: u64) -> Seq<EntryView> {
    entries.filter(|e: EntryView| e.id != id)
}

/// `entries` after `entry` has replaced whatever had its identifier: the old one is taken
/// out and `entry` goes to the end.
pub open spec fn updated(entries: Seq<EntryView>, entry: EntryView) -> Seq<EntryView> {
    without_id(entries, entry.id).push(entry)
}

/// Every identifier in `entries` is below `next_id(entries)`.
pub proof fn lemma_next_id_above(entries: Seq<EntryView>, i: int)
    requires
        0 <= i < entries.len(),
    ensures
        entries[i].id < next_id(entries),
    decreases entries.len(),
{
    if i < entries.len() - 1 {
        lemma_next_id_above(entries.drop_last(), i);
    }
}

/// Unless `entries` is empty, `next_id(entries)` is one more than an identifier in it.
pub proof fn lemma_next_id_reached(entries: Seq<EntryView>)
    requires
        entries.len() > 0,
    ensures
        0 < next_id(entries) <= u64::MAX + 1,
        has_id(entries, (next_id(entries) - 1) as u64),
    decreases entries.len(),
{
    let rest = entries.drop_last();
    if entries.last().id + 1 > next_id(rest) {
        assert(entries[entries.len() - 1].id == next_id(entries) - 1);
    } else {
        if rest.len() > 0 {
            lemma_next_id_reached(rest);
            let i = choose|i: int| 0 <= i < rest.len() && #[trigger] rest[i].id == next_id(rest) - 1;
            assert(entries[i].id == next_id(entries) - 1);
        }
    }
}

/// The identifier of a new entry is one more than the largest identifier in use: it is
/// above every identifier of the vault, and the number before it is in the vault.
pub proof fn lemma_new_id_follows_largest(entries: Seq<EntryView>)
    requires
        entries.len() > 0,
    ensures
        forall|i: int| 0 <= i < entries.len() ==> (#[trigger] entries[i]).id < next_id(entries),
        has_id(entries, (next_id(entries) - 1) as u64),
{
    assert forall|i: int| 0 <= i < entries.len() implies (#[trigger] entries[i]).id < next_id(
        entries,
    ) by {
        lemma_next_id_above(entries, i);
    }
    lemma_next_id_reached(entries);
}

/// Entries added one after the other to an empty vault are numbered from zero: the `k`-th
/// addition, counting from zero, gets the identifier `k` and the fields it was given.
pub proof fn lemma_added_all_counts_up(fields: Seq<(Seq<char>, Seq<char>, Seq<char>)>, k: int)
    requires
        0 <= k < fields.len() <= u64::MAX,
    ensures
        added_all(fields).len() == fields.len(),
        added_all(fields)[k] == (EntryView {
            id: k as u64,
            title: fields[k].0,
            username: fields[k].1,
            password: fields[k].2,
        }),
        next_id(added_all(fields)) == fields.len(),
    decreases fields.len(),
{
    let rest = fields.drop_last();
    if rest.len() > 0 {
        lemma_added_all_counts_up(rest, if k < rest.len() { k } else { 0 });
    }
    assert(added_all(fields).drop_last() == added_all(rest));
}

/// An update leaves the number of entries as it was where an entry had the identifier, and
/// raises it by one where none had.
pub proof fn lemma_update_len(entries: Seq<EntryView>, entry: EntryView)
    requires
        distinct_ids(entries),
    ensures
        updated(entries, entry).len() == if has_id(entries, entry.id) {
            entries.len()
        } else {
            entries.len() + 1
        },
{
    if has_id(entries, entry.id) {
        let i = choose|i: int| 0 <= i < entries.len() && #[trigger] entries[i].id == entry.id;
        lemma_without_present_id(entries, i);
    } else {
        lemma_without_absent_id(entries, entry.id);
    }
}

/// A longer list never has a smaller next identifier than its beginning.
pub proof fn lemma_next_id_prefix(entries: Seq<EntryView>, n: int)
    requires
        0 <= n <= entries.len(),
    ensures
        next_id(entries.take(n)) <= next_id(entries),
    decreases entries.len(),
{
    if n < entries.len() {
        lemma_next_id_prefix(entries.drop_last(), n);
        assert(entries.drop_last().take(n) == entries.take(n));
    } else {
        assert(entries.take(n) == entries);
    }
}

/// Taking out an identifier that does not occur changes nothing.
pub proof fn lemma_without_absent_id(entries: Seq<EntryView>, id: u64)
    requires
        !has_id(entries, id),
    ensures
        without_id(entries, id) == entries,
    decreases entries.len(),
{
    reveal(Seq::filter);
    if entries.len() > 0 {
        let rest = entries.drop_last();
        assert forall|i: int| 0 <= i < rest.len() implies rest[i].id != id by {
            assert(entries[i].id == rest[i].id);
        }
        lemma_without_absent_id(rest, id);
        assert(entries[entries.len() - 1].id != id);
        assert(rest.push(entries.last()) == entries);
    }
}

/// Where identifiers are unique, taking out the identifier of the entry at `i` removes
/// exactly that entry.
pub proof fn lemma_without_present_id(entries: Seq<EntryView>, i: int)
    requires
        distinct_ids(entries),
        0 <= i < entries.len(),
    ensures
        without_id(entries, entries[i].id) == entries.remove(i),
    decreases entries.len(),
{
    reveal(Seq::filter);
    let id = entries[i].id;
    let rest = entries.drop_last();
    if i == entries.len() - 1 {
        assert forall|j: int| 0 <= j < rest.len() implies rest[j].id != id by {
            assert(entries[j].id != entries[i].id);
        }
        lemma_without_absent_id(rest, id);
        assert(entries.remove(i) == rest);
    } else {
        assert(rest[i].id == id);
        assert(distinct_ids(rest)) by {
            assert forall|a: int, b: int| 0 <= a < b < rest.len() implies rest[a].id
                != rest[b].id by {
                assert(entries[a].id != entries[b].id);
            }
        }
        lemma_without_present_id(rest, i);
        assert(entries[i].id != entries[entries.len() - 1].id);
        assert(rest.remove(i).push(entries.last()) == entries.remove(i));
    }
}

/// Replacing an entry keeps identifiers unique.
pub proof fn lemma_updated_distinct(entries: Seq<EntryView>, entry: EntryView)
    requires
        distinct_ids(entries),
    ensures
        distinct_ids(updated(entries, entry)),
{
    let kept = without_id(entries, entry.id);
    let after = updated(entries, entry);
    if has_id(entries, entry.id) {
        let i = choose|i: int| 0 <= i < entries.len() && #[trigger] entries[i].id == entry.id;
        lemma_without_present_id(entries, i);
        assert forall|a: int, b: int| 0 <= a < b < after.len() implies after[a].id
            != after[b].id by {
            let a0 = if a < i { a } else { a + 1 };
            let b0 = if b < i { b } else { b + 1 };
            if b == kept.len() {
                assert(entries[a0].id != entries[i].id);
            } else {
                assert(entries[a0].id != entries[b0].id);
            }
        }
    } else {
        lemma_without_absent_id(entries, entry.id);
        assert forall|a: int, b: int| 0 <= a < b < after.len() implies after[a].id
            != after[b].id by {
            if b == kept.len() {
                assert(entries[a].id != entry.id);
            } else {
                assert(entries[a].id != entries[b].id);
            }
        }
    }
}

/// The vault: entries in the order in which they were added or last updated. No two entries
/// share an identifier.
#[derive(Debug)]
pub struct UncryptedVault {
    entries: Vec<Entry>,
}

impl View for UncryptedVault {
    type V = Seq<EntryView>;

    closed spec fn view(&self) -> Seq<EntryView> {
        self.entries@.map_values(|e: Entry| e@)
    }
}

/// Two vaults are equal when they hold the same entries in the same order, every field
/// alike.
impl PartialEq for UncryptedVault {
    fn eq(&self, other: &UncryptedVault) -> (same: bool) {
        if self.entries.len() != other.entries.len() {
            assert(self@.len() != other@.len());
            return false;
        }
        let mut i: usize = 0;
        while i < self.entries.len()
            invariant
                i <= self.entries.len(),
                self.entries.len() == other.entries.len(),
                forall|j: int| 0 <= j < i ==> self@[j] == other@[j],
            decreases self.entries.len() - i,
        {
            if !self.entries[i].same_content(&other.entries[i]) {
                assert(self@[i as int] != other@[i as int]);
                return false;
            }
            i = i + 1;
        }
        assert(self@ =~= other@);
        true
    }
}

impl vstd::std_specs::cmp::PartialEqSpecImpl for UncryptedVault {
    open spec fn obeys_eq_spec() -> bool {
        true
    }

    open spec fn eq_spec(&self, other: &UncryptedVault) -> bool {
        self@ == other@
    }
}

impl UncryptedVault {
    #[verifier::type_invariant]
    spec fn unique(self) -> bool {
        distinct_ids(self@)
    }

    pub fn new() -> (vault: Self)
        ensures
            vault@ == Seq::<EntryView>::empty(),
    {
        let vault = Self { entries: Vec::new() };
        assert(vault@ == Seq::<EntryView>::empty());
        vault
    }

    /// A vault of these entries in this order, or `None` where two of them share an
    /// identifier.
    pub fn from_entries(entries: Vec<Entry>) -> (vault: Option<Self>)
        ensures
            vault is Some <==> distinct_ids(entries@.map_values(|e: Entry| e@)),
            vault is Some ==> vault->Some_0@ == entries@.map_values(|e: Entry| e@),
    {
        broadcast use vstd::std_specs::hash::group_hash_axioms;

        let ghost views = entries@.map_values(|e: Entry| e@);
        let mut seen: HashSet<u64> = HashSet::new();
        let mut i: usize = 0;
        while i < entries.len()
            invariant
                i <= entries.len(),
                views == entries@.map_values(|e: Entry| e@),
                distinct_ids(views.take(i as int)),
                forall|id: u64| seen@.contains(id) <==> has_id(views.take(i as int), id),
            decreases entries.len() - i,
        {
            let ghost done = views.take(i as int);
            let id = entries[i].id;
            assert(views[i as int].id == id);
            let fresh = seen.insert(id);
            if !fresh {
                proof {
                    let a = choose|a: int| 0 <= a < done.len() && #[trigger] done[a].id == id;
                    assert(views[a].id == views[i as int].id);
                }
                return None;
            }
            proof {
                let more = views.take(i + 1);
                assert(more == done.push(views[i as int]));
                assert forall|a: int, b: int| 0 <= a < b < more.len() implies more[a].id
                    != more[b].id by {
                    if b == i {
                        assert(done[a].id == more[a].id);
                    } else {
                        assert(done[a].id != done[b].id);
                    }
                }
                assert forall|other: u64| seen@.contains(other) <==> has_id(more, other) by {
                    if has_id(more, other) {
                        let a = choose|a: int| 0 <= a < more.len() && #[trigger] more[a].id == other;
                        if a < i {
                            assert(done[a].id == other);
                        }
                    }
                    if has_id(done, other) {
                        let a = choose|a: int| 0 <= a < done.len() && #[trigger] done[a].id == other;
                        assert(more[a].id == other);
                    }
                    if other == id {
                        assert(more[i as int].id == other);
                    }
                }
            }
            i = i + 1;
        }
        assert(views.take(i as int) == views);
        Some(Self { entries })
    }

    /// The entries, in the vault's order.
    pub fn get_entries(&self) -> (entries: &[Entry])
        ensures
            entries@.map_values(|e: Entry| e@) == self@,
            distinct_ids(self@),
    {
        proof {
            use_type_invariant(self);
        }
        self.entries.as_slice()
    }

    /// The identifier that `add_entry` would give now, or `None` where the largest identifier
    /// in use is already the largest number there is.
    pub fn next_free_id(&self) -> (id: Option<u64>)
        ensures
            match id {
                Some(id) => id == next_id(self@),
                None => next_id(self@) > u64::MAX,
            },
    {
        let mut next: u64 = 0;
        let mut i: usize = 0;
        while i < self.entries.len()
            invariant
                i <= self.entries.len(),
                next == next_id(self@.take(i as int)),
            decreases self.entries.len() - i,
        {
            let id = self.entries[i].id;
            proof {
                assert(self@.take(i + 1).drop_last() == self@.take(i as int));
                assert(self@.take(i + 1).last().id == id);
                lemma_next_id_prefix(self@, i + 1);
            }
            if id == u64::MAX {
                return None;
            }
            if id >= next {
                next = id + 1;
            }
            i = i + 1;
        }
        assert(self@.take(i as int) == self@);
        Some(next)
    }

    /// Appends a new entry whose identifier is one more than the largest in the vault, or
    /// zero in an empty vault.
    pub fn add_entry(&mut self, title: String, username: String, password: String)
        requires
            next_id(old(self)@) <= u64::MAX,
        ensures
            final(self)@ == added(old(self)@, title@, username@, password@),
    {
        proof {
            use_type_invariant(&*self);
        }
        let id = match self.next_free_id() {
            Some(id) => id,
            None => 0,
        };
        let entry = Entry { id, title, username, password };
        let ghost before = self@;
        let mut entries: Vec<Entry> = Vec::new();
        core::mem::swap(&mut self.entries, &mut entries);
        entries.push(entry);
        proof {
            assert(entries@.map_values(|e: Entry| e@) == before.push(entry@));
            assert forall|i: int, j: int| 0 <= i < j < before.push(entry@).len() implies
                before.push(entry@)[i].id != before.push(entry@)[j].id by {
                if j == before.len() {
                    lemma_next_id_above(before, i);
                }
            }
        }
        core::mem::swap(&mut self.entries, &mut entries);
    }

    /// Puts `entry` in the place of the entry that has its identifier, at the end of the
    /// vault. Where no entry has that identifier, `entry` is simply appended.
    pub fn update_entry(&mut self, entry: Entry)
        ensures
            final(self)@ == updated(old(self)@, entry@),
    {
        proof {
            use_type_invariant(&*self);
        }
        let ghost before = self@;
        let mut entries: Vec<Entry> = Vec::new();
        core::mem::swap(&mut self.entries, &mut entries);
        assert(entries@.map_values(|e: Entry| e@) == before);
        let mut i: usize = 0;
        let mut found = false;
        while i < entries.len()
            invariant_except_break
                !found,
                forall|j: int| 0 <= j < i ==> before[j].id != entry@.id,
            invariant
                i <= entries.len(),
                entries@.map_values(|e: Entry| e@) == before,
            ensures
                i <= entries.len(),
                found ==> i < entries.len() && before[i as int].id == entry@.id,
                !found ==> !has_id(before, entry@.id),
            decreases entries.len() - i,
        {
            if entries[i].id == entry.id {
                found = true;
                break ;
            }
            i = i + 1;
        }
        if found {
            proof {
                lemma_without_present_id(before, i as int);
                assert(entries@.remove(i as int).map_values(|e: Entry| e@) == before.remove(
                    i as int,
                ));
            }
            entries.remove(i);
        } else {
            proof {
                lemma_without_absent_id(before, entry@.id);
            }
        }
        let ghost kept = entries@.map_values(|e: Entry| e@);
        entries.push(entry);
        proof {
            assert(kept == without_id(before, entry@.id));
            assert(entries@.map_values(|e: Entry| e@) == kept.push(entry@));
            lemma_updated_distinct(before, entry@);
        }
        core::mem::swap(&mut self.entries, &mut entries);
    }
}

} // verus!

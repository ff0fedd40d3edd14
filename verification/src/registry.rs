use vstd::prelude::*;

verus! {

/// The sessions that a node hosts: for each user id, the handle through
/// which the user's session is reached. A user id occurs at most once.
pub struct Registry<T> {
    entries: Vec<(String, T)>,
}

/// The map that a list of entries spells, later entries first.
pub open spec fn entries_map<T>(entries: Seq<(String, T)>) -> Map<Seq<char>, T>
    decreases entries.len(),
{
    if entries.len() == 0 {
        Map::empty()
    } else {
        entries_map(entries.drop_last()).insert(entries.last().0@, entries.last().1)
    }
}

/// No user id occurs twice in the list.
pub open spec fn distinct_users<T>(entries: Seq<(String, T)>) -> bool {
    forall|i: int, j: int| 0 <= i < j < entries.len() ==> entries[i].0@ != entries[j].0@
}

/// The map of a list holds exactly the user ids that occur in the list.
pub proof fn lemma_entries_map_dom<T>(entries: Seq<(String, T)>, user: Seq<char>)
    ensures
        entries_map(entries).contains_key(user) <==> exists|i: int|
            0 <= i < entries.len() && entries[i].0@ == user,
    decreases entries.len(),
{
    if entries.len() > 0 {
        let rest = entries.drop_last();
        lemma_entries_map_dom(rest, user);
        if entries_map(entries).contains_key(user) {
            if entries.last().0@ == user {
                assert(entries[entries.len() - 1].0@ == user);
            } else {
                let i = choose|i: int| 0 <= i < rest.len() && rest[i].0@ == user;
                assert(entries[i].0@ == user);
            }
        }
        if exists|i: int| 0 <= i < entries.len() && entries[i].0@ == user {
            let i = choose|i: int| 0 <= i < entries.len() && entries[i].0@ == user;
            if i < rest.len() {
                assert(rest[i].0@ == user);
            }
        }
    }
}

/// Where no user id occurs twice, the map of a list gives each user the
/// handle that stands beside it in the list.
pub proof fn lemma_entries_map_value<T>(entries: Seq<(String, T)>, i: int)
    requires
        distinct_users(entries),
        0 <= i < entries.len(),
    ensures
        entries_map(entries).contains_key(entries[i].0@),
        entries_map(entries)[entries[i].0@] == entries[i].1,
    decreases entries.len(),
{
    let rest = entries.drop_last();
    if i < entries.len() - 1 {
        assert(distinct_users(rest));
        lemma_entries_map_value(rest, i);
        assert(entries[i].0@ != entries[entries.len() - 1].0@);
    }
}

/// Where no user id occurs twice, taking an entry out of the list takes its
/// user out of the map and leaves the rest as it was.
pub proof fn lemma_entries_map_remove<T>(entries: Seq<(String, T)>, i: int)
    requires
        distinct_users(entries),
        0 <= i < entries.len(),
    ensures
        distinct_users(entries.remove(i)),
        entries_map(entries.remove(i)) == entries_map(entries).remove(entries[i].0@),
{
    let shorter = entries.remove(i);
    let user = entries[i].0@;
    assert(distinct_users(shorter)) by {
        assert forall|a: int, b: int| 0 <= a < b < shorter.len() implies shorter[a].0@
            != shorter[b].0@ by {
            let a0 = if a < i { a } else { a + 1 };
            let b0 = if b < i { b } else { b + 1 };
            assert(shorter[a] == entries[a0]);
            assert(shorter[b] == entries[b0]);
        }
    }
    assert forall|k: Seq<char>| #[trigger]
        entries_map(shorter).contains_key(k) <==> entries_map(entries).remove(user).contains_key(
            k,
        ) by {
        lemma_entries_map_dom(shorter, k);
        lemma_entries_map_dom(entries, k);
        if entries_map(shorter).contains_key(k) {
            let a = choose|a: int| 0 <= a < shorter.len() && shorter[a].0@ == k;
            let a0 = if a < i { a } else { a + 1 };
            assert(shorter[a] == entries[a0]);
            assert(entries[a0].0@ == k);
            assert(a0 != i);
            if a0 < i {
                assert(entries[a0].0@ != entries[i].0@);
            } else {
                assert(entries[i].0@ != entries[a0].0@);
            }
        }
        if entries_map(entries).remove(user).contains_key(k) {
            let b = choose|b: int| 0 <= b < entries.len() && entries[b].0@ == k;
            assert(b != i);
            let b1 = if b < i { b } else { b - 1 };
            assert(shorter[b1] == entries[b]);
            assert(shorter[b1].0@ == k);
        }
    }
    assert forall|k: Seq<char>| #[trigger] entries_map(shorter).contains_key(k) implies entries_map(
        shorter,
    )[k] == entries_map(entries).remove(user)[k] by {
        lemma_entries_map_dom(shorter, k);
        let a = choose|a: int| 0 <= a < shorter.len() && shorter[a].0@ == k;
        let a0 = if a < i { a } else { a + 1 };
        assert(shorter[a] == entries[a0]);
        lemma_entries_map_value(shorter, a);
        lemma_entries_map_value(entries, a0);
    }
    assert(entries_map(shorter) =~= entries_map(entries).remove(user));
}

impl<T> Registry<T> {
    /// No user id occurs twice.
    pub closed spec fn wf(&self) -> bool {
        distinct_users(self.entries@)
    }

    /// The registry as a map from user id to handle.
    pub closed spec fn view(&self) -> Map<Seq<char>, T> {
        entries_map(self.entries@)
    }

    /// A registry without sessions.
    pub fn new() -> (registry: Registry<T>)
        ensures
            registry.wf(),
            registry@ == Map::<Seq<char>, T>::empty(),
    {
        Registry { entries: Vec::new() }
    }

    /// Where the entry of a user stands in the list.
    fn position(&self, user_id: &String) -> (found: Option<usize>)
        requires
            self.wf(),
        ensures
            match found {
                Some(i) => i < self.entries@.len() && self.entries@[i as int].0@ == user_id@
                    && self@.contains_key(user_id@) && self@[user_id@]
                    == self.entries@[i as int].1,
                None => !self@.contains_key(user_id@),
            },
    {
        let mut i: usize = 0;
        while i < self.entries.len()
            invariant
                self.wf(),
                i <= self.entries@.len(),
                forall|k: int| 0 <= k < i ==> self.entries@[k].0@ != user_id@,
            decreases self.entries@.len() - i,
        {
            if self.entries[i].0 == *user_id {
                proof {
                    lemma_entries_map_value(self.entries@, i as int);
                }
                return Some(i);
            }
            i += 1;
        }
        proof {
            lemma_entries_map_dom(self.entries@, user_id@);
        }
        None
    }

    /// Whether a session of the user is hosted here.
    pub fn contains(&self, user_id: &String) -> (hosted: bool)
        requires
            self.wf(),
        ensures
            hosted == self@.contains_key(user_id@),
    {
        self.position(user_id).is_some()
    }

    /// The handle of the user's session, if one is hosted here.
    pub fn get(&self, user_id: &String) -> (handle: Option<&T>)
        requires
            self.wf(),
        ensures
            match handle {
                Some(h) => self@.contains_key(user_id@) && self@[user_id@] == *h,
                None => !self@.contains_key(user_id@),
            },
    {
        match self.position(user_id) {
            Some(i) => Some(&self.entries[i].1),
            None => None,
        }
    }

    /// Takes the user's session out of the registry and hands back its
    /// handle, if there was one.
    pub fn remove(&mut self, user_id: &String) -> (removed: Option<T>)
        requires
            old(self).wf(),
        ensures
            final(self).wf(),
            final(self)@ == old(self)@.remove(user_id@),
            match removed {
                Some(h) => old(self)@.contains_key(user_id@) && old(self)@[user_id@] == h,
                None => !old(self)@.contains_key(user_id@),
            },
    {
        match self.position(user_id) {
            Some(i) => {
                proof {
                    lemma_entries_map_remove(self.entries@, i as int);
                }
                let entry = self.entries.remove(i);
                Some(entry.1)
            },
            None => {
                assert(self@ =~= old(self)@.remove(user_id@));
                None
            },
        }
    }

    /// Enters the user's session. A session that the user had before is
    /// displaced, and its handle handed back.
    pub fn insert(&mut self, user_id: String, handle: T) -> (displaced: Option<T>)
        requires
            old(self).wf(),
        ensures
            final(self).wf(),
            final(self)@ == old(self)@.insert(user_id@, handle),
            match displaced {
                Some(h) => old(self)@.contains_key(user_id@) && old(self)@[user_id@] == h,
                None => !old(self)@.contains_key(user_id@),
            },
    {
        let displaced = self.remove(&user_id);
        proof {
            lemma_entries_map_dom(self.entries@, user_id@);
            assert(self.entries@.push((user_id, handle)).drop_last() =~= self.entries@);
            assert(old(self)@.remove(user_id@).insert(user_id@, handle) =~= old(self)@.insert(
                user_id@,
                handle,
            ));
        }
        self.entries.push((user_id, handle));
        displaced
    }

    /// How many sessions are hosted here.
    pub fn len(&self) -> (count: usize)
        requires
            self.wf(),
        ensures
            count == self@.dom().len(),
            self@.dom().finite(),
    {
        proof {
            lemma_entries_map_len(self.entries@);
        }
        self.entries.len()
    }
}

/// Where no user id occurs twice, the map of a list has as many users as the
/// list has entries.
pub proof fn lemma_entries_map_len<T>(entries: Seq<(String, T)>)
    requires
        distinct_users(entries),
    ensures
        entries_map(entries).dom().finite(),
        entries_map(entries).dom().len() == entries.len(),
    decreases entries.len(),
{
    if entries.len() > 0 {
        let rest = entries.drop_last();
        assert(distinct_users(rest));
        lemma_entries_map_len(rest);
        lemma_entries_map_dom(rest, entries.last().0@);
        if entries_map(rest).contains_key(entries.last().0@) {
            let i = choose|i: int| 0 <= i < rest.len() && rest[i].0@ == entries.last().0@;
            assert(entries[i].0@ != entries[entries.len() - 1].0@);
        }
    }
}

} // verus!

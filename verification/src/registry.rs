//! The server's shared registry: the table of connected users, the
//! connection-count admission limit, and the user id generator.
//!
//! The registry is a sequential core; the server wraps one instance in a
//! lock and every session works on it through these verified operations.
//! Its invariant: user ids and usernames are each unique, every issued id is
//! below the generator's next id, and the connection count never passes
//! [`MAX_CONNECTIONS`].

use vstd::prelude::*;

use crate::constants::MAX_CONNECTIONS;

verus! {

/// The id/name pairs of a user table.
pub open spec fn roster_view(l: Seq<(u32, String)>) -> Seq<(u32, Seq<char>)> {
    l.map_values(|p: (u32, String)| (p.0, p.1@))
}

/// Some entry carries the id.
pub open spec fn has_id(es: Seq<(u32, Seq<char>)>, id: u32) -> bool {
    exists|i: int| 0 <= i < es.len() && (#[trigger] es[i]).0 == id
}

/// Some entry carries the name.
pub open spec fn has_name(es: Seq<(u32, Seq<char>)>, name: Seq<char>) -> bool {
    exists|i: int| 0 <= i < es.len() && (#[trigger] es[i]).1 == name
}

/// The position of the entry carrying the id.
pub open spec fn index_of_id(es: Seq<(u32, Seq<char>)>, id: u32) -> int {
    choose|i: int| 0 <= i < es.len() && (#[trigger] es[i]).0 == id
}

/// The position of the entry carrying the name.
pub open spec fn index_of_name(es: Seq<(u32, Seq<char>)>, name: Seq<char>) -> int {
    choose|i: int| 0 <= i < es.len() && (#[trigger] es[i]).1 == name
}

/// No two entries share an id and no two share a name.
pub open spec fn distinct_entries(es: Seq<(u32, Seq<char>)>) -> bool {
    forall|i: int, j: int|
        0 <= i < j < es.len() ==> (#[trigger] es[i]).0 != (#[trigger] es[j]).0 && es[i].1
            != es[j].1
}

/// The table read as a map from user id to username.
pub open spec fn id_map(es: Seq<(u32, Seq<char>)>) -> Map<u32, Seq<char>> {
    Map::new(|id: u32| has_id(es, id), |id: u32| es[index_of_id(es, id)].1)
}

/// The table read as the mirror map, from username to user id.
pub open spec fn name_map(es: Seq<(u32, Seq<char>)>) -> Map<Seq<char>, u32> {
    Map::new(|name: Seq<char>| has_name(es, name), |name: Seq<char>| es[index_of_name(es, name)].0)
}

/// Law: the two indexes of a well-formed table are mutually consistent:
/// they hold exactly the same (id, name) pairs.
pub proof fn lemma_indexes_consistent(es: Seq<(u32, Seq<char>)>)
    requires
        distinct_entries(es),
    ensures
        forall|id: u32, name: Seq<char>|
            #[trigger] id_map(es).contains_pair(id, name) <==> #[trigger] name_map(
                es,
            ).contains_pair(name, id),
{
    assert forall|id: u32, name: Seq<char>| #[trigger]
        id_map(es).contains_pair(id, name) implies #[trigger] name_map(es).contains_pair(
        name,
        id,
    ) by {
        let i = index_of_id(es, id);
        assert(0 <= i < es.len() && es[i].0 == id);
        assert(es[i].1 == name);
        assert(has_name(es, name));
        let j = index_of_name(es, name);
        assert(0 <= j < es.len() && es[j].1 == name);
        assert(i == j);
    }
    assert forall|id: u32, name: Seq<char>| #[trigger]
        name_map(es).contains_pair(name, id) implies #[trigger] id_map(es).contains_pair(
        id,
        name,
    ) by {
        let j = index_of_name(es, name);
        assert(0 <= j < es.len() && es[j].1 == name);
        assert(es[j].0 == id);
        assert(has_id(es, id));
        let i = index_of_id(es, id);
        assert(0 <= i < es.len() && es[i].0 == id);
        assert(i == j);
    }
}

/// Law: registering a pair makes its name held, so a second registration of
/// the same name is refused by [`SharedState::add_user`]'s contract.
pub proof fn lemma_registered_name_blocks(es: Seq<(u32, Seq<char>)>, id: u32, name: Seq<char>)
    ensures
        has_name(es.push((id, name)), name),
{
    let es2 = es.push((id, name));
    assert(es2[es.len() as int].1 == name);
}

/// The server's shared state: the user table, the live connection counter,
/// and the monotonic id generator.
pub struct SharedState {
    /// Registered users in registration order: (user id, username).
    users: Vec<(u32, String)>,
    /// Connections currently admitted.
    connection_count: u32,
    /// The id the next successful registration receives.
    next_user_id: u32,
}

impl SharedState {
    /// The user table: (id, username) pairs in registration order.
    pub closed spec fn entries(&self) -> Seq<(u32, Seq<char>)> {
        roster_view(self.users@)
    }

    /// How many connections are currently admitted.
    pub closed spec fn connections(&self) -> u32 {
        self.connection_count
    }

    /// The id the next successful registration receives.
    pub closed spec fn next_id(&self) -> u32 {
        self.next_user_id
    }

    /// The registry's invariant.
    pub open spec fn wf(&self) -> bool {
        &&& distinct_entries(self.entries())
        &&& forall|i: int|
            0 <= i < self.entries().len() ==> (#[trigger] self.entries()[i]).0 < self.next_id()
        &&& self.connections() <= MAX_CONNECTIONS
        &&& self.next_id() >= 1
    }

    /// An empty registry: no users, no connections, ids starting at 1.
    pub fn new() -> (s: SharedState)
        ensures
            s.wf(),
            s.entries() == Seq::<(u32, Seq<char>)>::empty(),
            s.connections() == 0,
            s.next_id() == 1,
    {
        let s = SharedState { users: Vec::new(), connection_count: 0, next_user_id: 1 };
        proof {
            assert(s.entries() =~= Seq::<(u32, Seq<char>)>::empty());
        }
        s
    }

    /// Admission control: takes one connection slot if one is free.
    ///
    /// Succeeds exactly when the count is under [`MAX_CONNECTIONS`]; a
    /// rejected attempt changes nothing, so it is not counted against the
    /// live total.
    pub fn try_add_connection(&mut self) -> (r: bool)
        requires
            old(self).wf(),
        ensures
            final(self).wf(),
            r == (old(self).connections() < MAX_CONNECTIONS),
            final(self).entries() == old(self).entries(),
            final(self).next_id() == old(self).next_id(),
            r ==> final(self).connections() == old(self).connections() + 1,
            !r ==> *final(self) == *old(self),
    {
        if self.connection_count < (MAX_CONNECTIONS as u32) {
            self.connection_count = self.connection_count + 1;
            true
        } else {
            false
        }
    }

    /// Releases one connection slot.
    pub fn remove_connection(&mut self)
        requires
            old(self).wf(),
            old(self).connections() > 0,
        ensures
            final(self).wf(),
            final(self).connections() == old(self).connections() - 1,
            final(self).entries() == old(self).entries(),
            final(self).next_id() == old(self).next_id(),
    {
        self.connection_count = self.connection_count - 1;
    }

    /// How many connections are currently admitted.
    pub fn online_count(&self) -> (n: u32)
        ensures
            n == self.connections(),
    {
        self.connection_count
    }

    /// Whether the id generator can still hand out an id (it runs through
    /// the 32-bit space once and never reuses a value).
    pub fn can_allocate_id(&self) -> (r: bool)
        ensures
            r == (self.next_id() < u32::MAX),
    {
        self.next_user_id < u32::MAX
    }

    /// Whether some registered user carries this name.
    pub fn contains_name(&self, name: &String) -> (r: bool)
        ensures
            r == has_name(self.entries(), name@),
    {
        let n = self.users.len();
        let mut i: usize = 0;
        while i < n
            invariant
                n == self.users@.len(),
                0 <= i <= n,
                forall|j: int| 0 <= j < i ==> (#[trigger] self.entries()[j]).1 != name@,
            decreases n - i,
        {
            if self.users[i].1.eq(name) {
                assert(self.entries()[i as int].1 == name@);
                return true;
            }
            assert(self.entries()[i as int].1 != name@);
            i = i + 1;
        }
        false
    }

    /// Registers a user under `username`, allocating the next id.
    ///
    /// Fails exactly when the name is already registered, and then changes
    /// nothing — in particular, a rejected registration never consumes an
    /// id. On success the new pair is appended and the id generator moves
    /// on.
    pub fn add_user(&mut self, username: String) -> (r: Option<u32>)
        requires
            old(self).wf(),
            old(self).next_id() < u32::MAX,
        ensures
            final(self).wf(),
            final(self).connections() == old(self).connections(),
            match r {
                Some(id) => {
                    &&& !has_name(old(self).entries(), username@)
                    &&& id == old(self).next_id()
                    &&& final(self).entries() == old(self).entries().push((id, username@))
                    &&& final(self).next_id() == old(self).next_id() + 1
                },
                None => {
                    &&& has_name(old(self).entries(), username@)
                    &&& *final(self) == *old(self)
                },
            },
    {
        if self.contains_name(&username) {
            return None;
        }
        let id = self.next_user_id;
        self.next_user_id = self.next_user_id + 1;
        self.users.push((id, username));
        proof {
            assert(self.entries() =~= old(self).entries().push((id, username@)));
        }
        Some(id)
    }

    /// Deregisters the user with this id and returns the freed name.
    ///
    /// Returns nothing exactly when the id is not registered (so removing
    /// the same id twice frees a name only once), and then changes nothing.
    #[verifier::loop_isolation(false)]
    pub fn remove_user(&mut self, id: u32) -> (r: Option<String>)
        requires
            old(self).wf(),
        ensures
            final(self).wf(),
            final(self).connections() == old(self).connections(),
            final(self).next_id() == old(self).next_id(),
            !has_id(final(self).entries(), id),
            match r {
                Some(name) => {
                    &&& has_id(old(self).entries(), id)
                    &&& ({
                        let i = index_of_id(old(self).entries(), id);
                        &&& old(self).entries()[i] == (id, name@)
                        &&& final(self).entries() == old(self).entries().remove(i)
                    })
                },
                None => {
                    &&& !has_id(old(self).entries(), id)
                    &&& *final(self) == *old(self)
                },
            },
    {
        let n = self.users.len();
        let mut i: usize = 0;
        while i < n
            invariant
                *self == *old(self),
                n == self.users@.len(),
                0 <= i <= n,
                forall|j: int| 0 <= j < i ==> (#[trigger] self.entries()[j]).0 != id,
            decreases n - i,
        {
            if self.users[i].0 == id {
                let ghost es = old(self).entries();
                let (_, name) = self.users.remove(i);
                proof {
                    assert(es[i as int].0 == id);
                    assert(has_id(es, id));
                    let k = index_of_id(es, id);
                    assert(0 <= k < es.len() && es[k].0 == id);
                    assert(k == i as int) by {
                        if k < i as int {
                            assert(es[k].0 != es[i as int].0);
                        } else if k > i as int {
                            assert(es[i as int].0 != es[k].0);
                        }
                    }
                    assert(es[i as int].1 == name@);
                    assert(self.entries() =~= es.remove(i as int));
                    assert forall|j: int|
                        0 <= j < self.entries().len() implies (#[trigger] self.entries()[j]).0
                        != id by {
                        if j < i as int {
                            assert(self.entries()[j] == es[j]);
                            assert(es[j].0 != es[i as int].0);
                        } else {
                            assert(self.entries()[j] == es[j + 1]);
                            assert(es[i as int].0 != es[j + 1].0);
                        }
                    }
                }
                return Some(name);
            }
            assert(self.entries()[i as int].0 != id);
            i = i + 1;
        }
        None
    }

    /// The usernames currently registered, in registration order.
    pub fn online_users(&self) -> (names: Vec<String>)
        ensures
            names@.len() == self.entries().len(),
            forall|i: int|
                0 <= i < names@.len() ==> #[trigger] names@[i]@ == self.entries()[i].1,
    {
        let n = self.users.len();
        let mut names: Vec<String> = Vec::new();
        let mut i: usize = 0;
        while i < n
            invariant
                n == self.users@.len(),
                0 <= i <= n,
                names@.len() == i,
                forall|j: int| 0 <= j < i ==> #[trigger] names@[j]@ == self.entries()[j].1,
            decreases n - i,
        {
            names.push(self.users[i].1.clone());
            i = i + 1;
        }
        names
    }
}

} // verus!

use vstd::prelude::*;
use crate::room::Room;

verus! {

/// Decoded rooms by name. Inserting a name that is already present replaces
/// its room. The store remembers which room was inserted last.
pub struct MapStore {
    entries: Vec<(String, Room)>,
    newest: Option<usize>,
    contents: Ghost<Map<Seq<char>, Seq<Seq<char>>>>,
}

impl View for MapStore {
    type V = Map<Seq<char>, Seq<Seq<char>>>;

    closed spec fn view(&self) -> Map<Seq<char>, Seq<Seq<char>>> {
        self.contents@
    }
}

impl MapStore {
    /// Names are unique, every entry is in the model, every name of the model
    /// has an entry, and `newest` points at an entry exactly when there is one.
    pub closed spec fn wf(&self) -> bool {
        &&& forall|i: int, j: int|
            0 <= i < j < self.entries@.len() ==> self.entries@[i].0@ != self.entries@[j].0@
        &&& forall|i: int|
            0 <= i < self.entries@.len() ==> {
                &&& self.contents@.contains_key(#[trigger] self.entries@[i].0@)
                &&& self.contents@[self.entries@[i].0@] == self.entries@[i].1@
            }
        &&& forall|k: Seq<char>|
            self.contents@.contains_key(k) ==> exists|i: int|
                0 <= i < self.entries@.len() && #[trigger] self.entries@[i].0@ == k
        &&& match self.newest {
            Some(n) => n < self.entries@.len(),
            None => self.entries@.len() == 0,
        }
    }

    /// The name inserted last, if any room was inserted.
    pub closed spec fn latest_name(&self) -> Option<Seq<char>> {
        match self.newest {
            Some(n) => Some(self.entries@[n as int].0@),
            None => None,
        }
    }

    /// The name inserted last is always one of the store's names.
    pub proof fn lemma_latest_is_stored(&self)
        requires
            self.wf(),
        ensures
            self.latest_name() is Some ==> self@.contains_key(self.latest_name()->0),
            self.latest_name() is None ==> self@ == Map::<Seq<char>, Seq<Seq<char>>>::empty(),
    {
        if self.newest is None {
            assert(self@ =~= Map::<Seq<char>, Seq<Seq<char>>>::empty());
        } else {
            let n = self.newest->0 as int;
            assert(self.contents@.contains_key(self.entries@[n].0@));
        }
    }

    /// An empty store.
    pub fn new() -> (r: MapStore)
        ensures
            r.wf(),
            r@ == Map::<Seq<char>, Seq<Seq<char>>>::empty(),
            r.latest_name() is None,
    {
        MapStore { entries: Vec::new(), newest: None, contents: Ghost(Map::empty()) }
    }

    fn position(&self, name: &String) -> (r: Option<usize>)
        requires
            self.wf(),
        ensures
            match r {
                Some(i) => i < self.entries@.len() && self.entries@[i as int].0@ == name@,
                None => !self@.contains_key(name@),
            },
    {
        let mut i: usize = 0;
        while i < self.entries.len()
            invariant
                self.wf(),
                i <= self.entries@.len(),
                forall|j: int| 0 <= j < i ==> self.entries@[j].0@ != name@,
            decreases self.entries@.len() - i,
        {
            if self.entries[i].0 == *name {
                return Some(i);
            }
            i = i + 1;
        }
        None
    }

    /// Stores `room` under `name`, replacing any room of that name, and makes
    /// it the latest room.
    pub fn insert(&mut self, name: String, room: Room)
        requires
            old(self).wf(),
        ensures
            final(self).wf(),
            final(self)@ == old(self)@.insert(name@, room@),
            final(self).latest_name() == Some(name@),
    {
        let ghost key = name@;
        let ghost grid = room@;
        let ghost before = self.entries@;
        match self.position(&name) {
            Some(i) => {
                self.entries[i] = (name, room);
                self.newest = Some(i);
                self.contents = Ghost(self.contents@.insert(key, grid));
                assert forall|k: Seq<char>| self.contents@.contains_key(k) implies exists|j: int|
                    0 <= j < self.entries@.len() && #[trigger] self.entries@[j].0@ == k by {
                    if k != key {
                        let j = choose|j: int| 0 <= j < before.len() && #[trigger] before[j].0@ == k;
                        assert(self.entries@[j].0@ == k);
                    } else {
                        assert(self.entries@[i as int].0@ == k);
                    }
                }
            },
            None => {
                self.entries.push((name, room));
                self.newest = Some(self.entries.len() - 1);
                self.contents = Ghost(self.contents@.insert(key, grid));
                assert forall|k: Seq<char>| self.contents@.contains_key(k) implies exists|j: int|
                    0 <= j < self.entries@.len() && #[trigger] self.entries@[j].0@ == k by {
                    if k != key {
                        let j = choose|j: int| 0 <= j < before.len() && #[trigger] before[j].0@ == k;
                        assert(self.entries@[j].0@ == k);
                    } else {
                        assert(self.entries@[before.len() as int].0@ == k);
                    }
                }
            },
        }
    }

    /// The room stored under `name`.
    pub fn get(&self, name: &String) -> (r: Option<&Room>)
        requires
            self.wf(),
        ensures
            match r {
                Some(room) => self@.contains_key(name@) && self@[name@] == room@,
                None => !self@.contains_key(name@),
            },
    {
        match self.position(name) {
            Some(i) => Some(&self.entries[i].1),
            None => None,
        }
    }

    /// The room inserted last, with its name.
    pub fn latest(&self) -> (r: Option<(&String, &Room)>)
        requires
            self.wf(),
        ensures
            match r {
                Some((name, room)) => self.latest_name() == Some(name@) && self@.contains_key(name@)
                    && self@[name@] == room@,
                None => self.latest_name() is None,
            },
    {
        match self.newest {
            Some(n) => Some((&self.entries[n].0, &self.entries[n].1)),
            None => None,
        }
    }

    /// Whether no room is stored.
    pub fn is_empty(&self) -> (r: bool)
        requires
            self.wf(),
        ensures
            r == (self@ == Map::<Seq<char>, Seq<Seq<char>>>::empty()),
    {
        proof {
            self.lemma_latest_is_stored();
        }
        self.newest.is_none()
    }
}

} // verus!

use vstd::prelude::*;

use crate::game::{Room, RoomView};

verus! {

pub open spec fn has_key(s: Seq<(String, Room)>, k: Seq<char>) -> bool {
    exists|i: int| 0 <= i < s.len() && #[trigger] s[i].0@ == k
}

pub open spec fn keys_unique(s: Seq<(String, Room)>) -> bool {
    forall|i: int, j: int| 0 <= i < s.len() && 0 <= j < s.len() && i != j ==> s[i].0@ != s[j].0@
}

/// The rooms of a list of entries, by id.
pub open spec fn rooms_view(s: Seq<(String, Room)>) -> Map<Seq<char>, RoomView> {
    Map::new(
        |k: Seq<char>| has_key(s, k),
        |k: Seq<char>| s[choose|i: int| 0 <= i < s.len() && #[trigger] s[i].0@ == k].1@,
    )
}

proof fn lemma_entry(s: Seq<(String, Room)>, i: int)
    requires
        keys_unique(s),
        0 <= i < s.len(),
    ensures
        rooms_view(s).contains_key(s[i].0@),
        rooms_view(s)[s[i].0@] == s[i].1@,
{
    let k = s[i].0@;
    assert(has_key(s, k));
    let j = choose|j: int| 0 <= j < s.len() && #[trigger] s[j].0@ == k;
    assert(j == i);
}

proof fn lemma_replace(s: Seq<(String, Room)>, i: int, e: (String, Room))
    requires
        keys_unique(s),
        0 <= i < s.len(),
        e.0@ == s[i].0@,
    ensures
        keys_unique(s.update(i, e)),
        rooms_view(s.update(i, e)) == rooms_view(s).insert(e.0@, e.1@),
{
    let t = s.update(i, e);
    assert forall|a: int, b: int| 0 <= a < t.len() && 0 <= b < t.len() && a != b implies t[a].0@ != t[b].0@ by {
        assert(t[a].0@ == s[a].0@);
        assert(t[b].0@ == s[b].0@);
    }
    let m1 = rooms_view(t);
    let m2 = rooms_view(s).insert(e.0@, e.1@);
    assert forall|k: Seq<char>| m1.contains_key(k) <==> m2.contains_key(k) by {
        if has_key(t, k) {
            let j = choose|j: int| 0 <= j < t.len() && #[trigger] t[j].0@ == k;
            assert(s[j].0@ == k);
        }
        if has_key(s, k) {
            let j = choose|j: int| 0 <= j < s.len() && #[trigger] s[j].0@ == k;
            assert(t[j].0@ == k);
        }
    }
    assert forall|k: Seq<char>| #[trigger] m1.contains_key(k) implies m1[k] == m2[k] by {
        let j = choose|j: int| 0 <= j < t.len() && #[trigger] t[j].0@ == k;
        lemma_entry(t, j);
        if j != i {
            lemma_entry(s, j);
        }
    }
    assert(m1 =~= m2);
}

proof fn lemma_push(s: Seq<(String, Room)>, e: (String, Room))
    requires
        keys_unique(s),
        !has_key(s, e.0@),
    ensures
        keys_unique(s.push(e)),
        rooms_view(s.push(e)) == rooms_view(s).insert(e.0@, e.1@),
{
    let t = s.push(e);
    assert forall|a: int, b: int| 0 <= a < t.len() && 0 <= b < t.len() && a != b implies t[a].0@ != t[b].0@ by {
        if a < s.len() && b < s.len() {
            assert(t[a] == s[a] && t[b] == s[b]);
        } else if a < s.len() {
            assert(t[a] == s[a]);
        } else {
            assert(t[b] == s[b]);
        }
    }
    let m1 = rooms_view(t);
    let m2 = rooms_view(s).insert(e.0@, e.1@);
    assert forall|k: Seq<char>| m1.contains_key(k) <==> m2.contains_key(k) by {
        if has_key(t, k) && k != e.0@ {
            let j = choose|j: int| 0 <= j < t.len() && #[trigger] t[j].0@ == k;
            assert(j < s.len());
            assert(s[j].0@ == k);
        }
        if has_key(s, k) {
            let j = choose|j: int| 0 <= j < s.len() && #[trigger] s[j].0@ == k;
            assert(t[j].0@ == k);
        }
        if k == e.0@ {
            assert(t[s.len() as int].0@ == k);
        }
    }
    assert forall|k: Seq<char>| #[trigger] m1.contains_key(k) implies m1[k] == m2[k] by {
        let j = choose|j: int| 0 <= j < t.len() && #[trigger] t[j].0@ == k;
        lemma_entry(t, j);
        if j < s.len() {
            assert(t[j] == s[j]);
            lemma_entry(s, j);
        }
    }
    assert(m1 =~= m2);
}

proof fn lemma_remove(s: Seq<(String, Room)>, i: int)
    requires
        keys_unique(s),
        0 <= i < s.len(),
    ensures
        keys_unique(s.remove(i)),
        !has_key(s.remove(i), s[i].0@),
        rooms_view(s.remove(i)) == rooms_view(s).remove(s[i].0@),
{
    let t = s.remove(i);
    assert forall|a: int| 0 <= a < t.len() implies #[trigger] t[a] == if a < i { s[a] } else { s[a + 1] } by {}
    assert forall|a: int, b: int| 0 <= a < t.len() && 0 <= b < t.len() && a != b implies t[a].0@ != t[b].0@ by {
        let sa = if a < i { a } else { a + 1 };
        let sb = if b < i { b } else { b + 1 };
        assert(t[a] == s[sa] && t[b] == s[sb]);
    }
    assert forall|a: int| 0 <= a < t.len() implies #[trigger] t[a].0@ != s[i].0@ by {
        let sa = if a < i { a } else { a + 1 };
        assert(t[a] == s[sa]);
    }
    let m1 = rooms_view(t);
    let m2 = rooms_view(s).remove(s[i].0@);
    assert forall|k: Seq<char>| m1.contains_key(k) <==> m2.contains_key(k) by {
        if has_key(t, k) {
            let j = choose|j: int| 0 <= j < t.len() && #[trigger] t[j].0@ == k;
            let sj = if j < i { j } else { j + 1 };
            assert(t[j] == s[sj]);
            assert(s[sj].0@ == k);
        }
        if has_key(s, k) && k != s[i].0@ {
            let j = choose|j: int| 0 <= j < s.len() && #[trigger] s[j].0@ == k;
            let tj = if j < i { j } else { j - 1 };
            assert(t[tj] == s[j]);
            assert(t[tj].0@ == k);
        }
    }
    assert forall|k: Seq<char>| #[trigger] m1.contains_key(k) implies m1[k] == m2[k] by {
        let j = choose|j: int| 0 <= j < t.len() && #[trigger] t[j].0@ == k;
        let sj = if j < i { j } else { j + 1 };
        assert(t[j] == s[sj]);
        lemma_entry(t, j);
        lemma_entry(s, sj);
    }
    assert(m1 =~= m2);
}

/// Relies on uuid's `Uuid::now_v7` and its `Display`: a time-ordered id in the
/// hyphenated form of 36 characters.
#[verifier::external_body]
fn new_room_id() -> (r: String)
    ensures
        r@.len() == 36,
{
    uuid::Uuid::now_v7().to_string()
}

pub open spec fn valid_rooms(m: Map<Seq<char>, RoomView>) -> bool {
    forall|k: Seq<char>| m.contains_key(k) ==> #[trigger] m[k].valid()
}

/// How many ids `create_room` draws before it gives up.
pub const ROOM_ID_ATTEMPTS: usize = 4;

/// All rooms, by id. Each room is reached only through the methods below,
/// for the length of one call.
pub struct Registry {
    rooms: Vec<(String, Room)>,
}

impl View for Registry {
    type V = Map<Seq<char>, RoomView>;

    closed spec fn view(&self) -> Map<Seq<char>, RoomView> {
        rooms_view(self.rooms@)
    }
}

impl Registry {
    pub closed spec fn wf(&self) -> bool {
        keys_unique(self.rooms@) && valid_rooms(self@)
    }

    /// Every room of a well-formed registry keeps the invariants of a room.
    pub proof fn lemma_rooms_valid(&self)
        requires
            self.wf(),
        ensures
            valid_rooms(self@),
    {
    }

    pub fn new() -> (r: Registry)
        ensures
            r.wf(),
            r@ == Map::<Seq<char>, RoomView>::empty(),
    {
        let r = Registry { rooms: Vec::new() };
        assert(rooms_view(r.rooms@) =~= Map::<Seq<char>, RoomView>::empty());
        assert(valid_rooms(r@));
        r
    }

    fn find(&self, room_id: &String) -> (r: Option<usize>)
        requires
            self.wf(),
        ensures
            r is None <==> !self@.contains_key(room_id@),
            r matches Some(i) ==> i < self.rooms@.len() && self.rooms@[i as int].0@ == room_id@
                && self@[room_id@] == self.rooms@[i as int].1@,
    {
        let mut i: usize = 0;
        while i < self.rooms.len()
            invariant
                self.wf(),
                i <= self.rooms@.len(),
                forall|j: int| 0 <= j < i ==> self.rooms@[j].0@ != room_id@,
            decreases self.rooms@.len() - i,
        {
            if String::eq(&self.rooms[i].0, room_id) {
                proof {
                    lemma_entry(self.rooms@, i as int);
                }
                return Some(i);
            }
            i = i + 1;
        }
        None
    }

    /// Adds an empty room under `room_id` where no room has that id; returns
    /// whether it did. A room already under `room_id` is left as it is.
    pub fn insert_new_room(&mut self, room_id: String) -> (r: bool)
        requires
            old(self).wf(),
        ensures
            final(self).wf(),
            r == !old(self)@.contains_key(room_id@),
            r ==> final(self)@.dom() == old(self)@.dom().insert(room_id@),
            r ==> final(self)@[room_id@].fresh(),
            r ==> forall|k: Seq<char>| k != room_id@ && old(self)@.contains_key(k) ==> #[trigger] final(self)@[k] == old(self)@[k],
            !r ==> final(self)@ == old(self)@,
    {
        if self.find(&room_id).is_some() {
            return false;
        }
        let room = Room::new();
        proof {
            crate::game::lemma_fresh_valid(room@);
        }
        self.put_room(room_id, room);
        true
    }

    /// Takes the room of `room_id` out of the registry, to be put back with
    /// `put_room` once a command is done with it.
    pub(crate) fn take_room(&mut self, room_id: &String) -> (r: Option<Room>)
        requires
            old(self).wf(),
        ensures
            final(self).wf(),
            old(self)@.contains_key(room_id@) ==> (r matches Some(rm) && rm@ == old(self)@[room_id@]
                && rm@.valid() && final(self)@ == old(self)@.remove(room_id@)),
            !old(self)@.contains_key(room_id@) ==> r is None && final(self)@ == old(self)@,
    {
        match self.find(room_id) {
            Some(i) => {
                proof {
                    lemma_remove(self.rooms@, i as int);
                }
                let (_, room) = self.rooms.remove(i);
                Some(room)
            },
            None => None,
        }
    }

    /// Stores `room` under `room_id`, replacing a room of that id.
    pub(crate) fn put_room(&mut self, room_id: String, room: Room)
        requires
            old(self).wf(),
            room@.valid(),
        ensures
            final(self).wf(),
            final(self)@ == old(self)@.insert(room_id@, room@),
    {
        match self.find(&room_id) {
            Some(i) => {
                proof {
                    lemma_replace(self.rooms@, i as int, (room_id, room));
                }
                self.rooms.set(i, (room_id, room));
            },
            None => {
                proof {
                    lemma_push(self.rooms@, (room_id, room));
                }
                self.rooms.push((room_id, room));
            },
        }
    }

    /// Opens a new empty room under an id that no room has, and returns the
    /// id. An id is drawn up to `ROOM_ID_ATTEMPTS` times; where each one drawn
    /// is taken, nothing changes and `None` is returned.
    pub fn create_room(&mut self) -> (r: Option<String>)
        requires
            old(self).wf(),
        ensures
            final(self).wf(),
            r matches Some(id) ==> {
                &&& id@.len() == 36
                &&& !old(self)@.contains_key(id@)
                &&& final(self)@.dom() == old(self)@.dom().insert(id@)
                &&& final(self)@[id@].fresh()
                &&& forall|k: Seq<char>| k != id@ && old(self)@.contains_key(k) ==> #[trigger] final(self)@[k] == old(self)@[k]
            },
            r is None ==> final(self)@ == old(self)@,
    {
        let mut attempt: usize = 0;
        while attempt < ROOM_ID_ATTEMPTS
            invariant
                self.wf(),
                self@ == old(self)@,
            decreases ROOM_ID_ATTEMPTS - attempt,
        {
            let room_id = new_room_id();
            if self.insert_new_room(room_id.clone()) {
                return Some(room_id);
            }
            attempt = attempt + 1;
        }
        None
    }
}

} // verus!

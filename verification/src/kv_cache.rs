use vstd::prelude::*;
use crate::rw_lock::{RoomLock, RoomView};

verus! {

/// A key-value map from strings to strings, kept as a list of pairs with
/// distinct keys.
pub struct KvMap {
    entries: Vec<(String, String)>,
}

impl KvMap {
    /// No key occurs twice.
    pub closed spec fn wf(&self) -> bool {
        forall|i: int, j: int|
            0 <= i < self.entries@.len() && 0 <= j < self.entries@.len() && i != j
                ==> #[trigger] self.entries@[i].0@ != #[trigger] self.entries@[j].0@
    }

    closed spec fn has_key_at(&self, k: Seq<char>, i: int) -> bool {
        0 <= i < self.entries@.len() && self.entries@[i].0@ == k
    }

    pub closed spec fn contents(&self) -> Map<Seq<char>, Seq<char>> {
        Map::new(
            |k: Seq<char>| exists|i: int| self.has_key_at(k, i),
            |k: Seq<char>| self.entries@[choose|i: int| self.has_key_at(k, i)].1@,
        )
    }

    pub fn new() -> (m: KvMap)
        ensures
            m.wf(),
            m.contents() == Map::<Seq<char>, Seq<char>>::empty(),
    {
        let m = KvMap { entries: Vec::new() };
        assert(m.contents() =~= Map::<Seq<char>, Seq<char>>::empty());
        m
    }

    /// The position of key `k`, if it is present.
    fn find(&self, k: &String) -> (pos: Option<usize>)
        requires
            self.wf(),
        ensures
            match pos {
                Some(i) => self.has_key_at(k@, i as int),
                None => !self.contents().dom().contains(k@),
            },
    {
        let mut i: usize = 0;
        while i < self.entries.len()
            invariant
                i <= self.entries@.len(),
                forall|j: int| 0 <= j < i ==> self.entries@[j].0@ != k@,
            decreases self.entries@.len() - i,
        {
            if self.entries[i].0 == *k {
                return Some(i);
            }
            i = i + 1;
        }
        None
    }

    /// The value stored under `k`, or the empty string.
    pub fn get(&self, k: &str) -> (v: String)
        requires
            self.wf(),
        ensures
            v@ == (if self.contents().dom().contains(k@) {
                self.contents()[k@]
            } else {
                Seq::<char>::empty()
            }),
    {
        let key = k.to_owned();
        match self.find(&key) {
            Some(i) => {
                proof {
                    let j = choose|j: int| self.has_key_at(k@, j);
                    assert(self.has_key_at(k@, j));
                    assert(j == i as int);
                }
                self.entries[i].1.clone()
            },
            None => String::new(),
        }
    }

    /// Stores `v` under `k`, replacing any earlier value.
    pub fn set(&mut self, k: String, v: String)
        requires
            old(self).wf(),
        ensures
            final(self).wf(),
            final(self).contents() == old(self).contents().insert(k@, v@),
    {
        match self.find(&k) {
            Some(i) => {
                self.entries.set(i, (k, v));
                proof {
                    assert forall|a: int, b: int|
                        0 <= a < self.entries@.len() && 0 <= b < self.entries@.len() && a != b
                            implies #[trigger] self.entries@[a].0@ != #[trigger] self.entries@[b].0@ by {
                        assert(old(self).entries@[a].0@ == self.entries@[a].0@);
                        assert(old(self).entries@[b].0@ == self.entries@[b].0@);
                    }
                    assert forall|key: Seq<char>| #![auto]
                        self.contents().dom().contains(key) == old(self).contents().insert(
                            k@,
                            v@,
                        ).dom().contains(key) by {
                        if exists|j: int| old(self).has_key_at(key, j) {
                            let j = choose|j: int| old(self).has_key_at(key, j);
                            assert(self.has_key_at(key, j));
                        }
                        if exists|j: int| self.has_key_at(key, j) {
                            let j = choose|j: int| self.has_key_at(key, j);
                            if j != i as int {
                                assert(old(self).has_key_at(key, j));
                            }
                        }
                    }
                    assert forall|key: Seq<char>| #![auto]
                        self.contents().dom().contains(key) implies self.contents()[key]
                        == old(self).contents().insert(k@, v@)[key] by {
                        let j = choose|j: int| self.has_key_at(key, j);
                        assert(self.has_key_at(key, j));
                        if key != k@ {
                            assert(old(self).has_key_at(key, j));
                            let j2 = choose|j2: int| old(self).has_key_at(key, j2);
                            assert(old(self).has_key_at(key, j2));
                            assert(j2 == j);
                        }
                    }
                    assert(self.contents() =~= old(self).contents().insert(k@, v@));
                }
            },
            None => {
                self.entries.push((k, v));
                proof {
                    let n = old(self).entries@.len() as int;
                    assert forall|a: int, b: int|
                        0 <= a < self.entries@.len() && 0 <= b < self.entries@.len() && a != b
                            implies #[trigger] self.entries@[a].0@ != #[trigger] self.entries@[b].0@ by {
                        if a == n {
                            assert(!old(self).has_key_at(k@, b));
                        } else if b == n {
                            assert(!old(self).has_key_at(k@, a));
                        } else {
                            assert(old(self).entries@[a] == self.entries@[a]);
                            assert(old(self).entries@[b] == self.entries@[b]);
                        }
                    }
                    assert forall|key: Seq<char>| #![auto]
                        self.contents().dom().contains(key) == old(self).contents().insert(
                            k@,
                            v@,
                        ).dom().contains(key) by {
                        if exists|j: int| old(self).has_key_at(key, j) {
                            let j = choose|j: int| old(self).has_key_at(key, j);
                            assert(self.has_key_at(key, j));
                        }
                        if key == k@ {
                            assert(self.has_key_at(key, n));
                        }
                        if exists|j: int| self.has_key_at(key, j) {
                            let j = choose|j: int| self.has_key_at(key, j);
                            if j != n {
                                assert(old(self).has_key_at(key, j));
                            }
                        }
                    }
                    assert forall|key: Seq<char>| #![auto]
                        self.contents().dom().contains(key) implies self.contents()[key]
                        == old(self).contents().insert(k@, v@)[key] by {
                        let j = choose|j: int| self.has_key_at(key, j);
                        assert(self.has_key_at(key, j));
                        if key != k@ {
                            assert(j != n);
                            assert(old(self).has_key_at(key, j));
                            let j2 = choose|j2: int| old(self).has_key_at(key, j2);
                            assert(old(self).has_key_at(key, j2));
                            assert(j2 == j);
                        } else {
                            if j != n {
                                assert(old(self).has_key_at(key, j));
                            }
                        }
                    }
                    assert(self.contents() =~= old(self).contents().insert(k@, v@));
                }
            },
        }
    }
}


/// A key-value cache whose map is guarded by a readers-writer lock held
/// by the caller: `get` runs under the read lock, `set` under the write lock.
pub struct KVCacheRw {
    map: KvMap,
}

impl View for KVCacheRw {
    type V = Map<Seq<char>, Seq<char>>;

    closed spec fn view(&self) -> Map<Seq<char>, Seq<char>> {
        self.map.contents()
    }
}

impl KVCacheRw {
    pub closed spec fn wf(&self) -> bool {
        self.map.wf()
    }

    /// An empty cache.
    pub fn new() -> (c: KVCacheRw)
        ensures
            c.wf(),
            c@ == Map::<Seq<char>, Seq<char>>::empty(),
    {
        KVCacheRw { map: KvMap::new() }
    }

    /// The value cached under `k`, or the empty string when there is none.
    pub fn get(&self, k: &str) -> (v: String)
        requires
            self.wf(),
        ensures
            v@ == (if self@.dom().contains(k@) { self@[k@] } else { Seq::<char>::empty() }),
    {
        self.map.get(k)
    }

    /// Caches `v` under `k`.
    pub fn set(&mut self, k: String, v: String)
        requires
            old(self).wf(),
        ensures
            final(self).wf(),
            final(self)@ == old(self)@.insert(k@, v@),
    {
        self.map.set(k, v);
    }
}

/// The mathematical state of a `KVCacheHandRolled`: the cached map and the
/// state of its lightswitch-and-turnstile protocol.
pub struct HandRolledView {
    pub map: Map<Seq<char>, Seq<char>>,
    pub room: RoomView,
}

/// A key-value cache guarded by a hand-rolled lightswitch-and-turnstile
/// readers-writers protocol: reads happen only while the caller is one of
/// the readers in the room, writes only while it is the writer in the room.
pub struct KVCacheHandRolled {
    map: KvMap,
    lock: RoomLock,
}

impl View for KVCacheHandRolled {
    type V = HandRolledView;

    closed spec fn view(&self) -> HandRolledView {
        HandRolledView { map: self.map.contents(), room: self.lock@ }
    }
}

impl KVCacheHandRolled {
    pub closed spec fn wf(&self) -> bool {
        self.map.wf() && self.lock@.inv()
    }

    /// An empty cache with an open turnstile and an empty room.
    pub fn new() -> (c: KVCacheHandRolled)
        ensures
            c.wf(),
            c@.map == Map::<Seq<char>, Seq<char>>::empty(),
            c@.room == (RoomView {
                turnstile_free: true,
                room_free: true,
                readers_inside: 0,
                writer_inside: false,
            }),
    {
        KVCacheHandRolled { map: KvMap::new(), lock: RoomLock::new() }
    }

    pub proof fn lemma_wf_inv(&self)
        requires
            self.wf(),
        ensures
            self@.room.inv(),
    {
    }

    pub fn readers_inside(&self) -> (n: usize)
        ensures
            n as nat == self@.room.readers_inside,
    {
        self.lock.readers_inside()
    }

    pub fn writer_inside(&self) -> (w: bool)
        ensures
            w == self@.room.writer_inside,
    {
        self.lock.writer_inside()
    }

    /// Whether a writer holds the turnstile and waits for the room.
    pub fn writer_waiting(&self) -> (w: bool)
        ensures
            w == self@.room.writer_waiting(),
    {
        !self.lock.reader_pass_turnstile() && !self.lock.writer_inside()
    }

    /// A reader gets through the turnstile when no writer holds it.
    pub fn reader_pass_turnstile(&self) -> (passed: bool)
        ensures
            passed == self@.room.turnstile_free,
    {
        self.lock.reader_pass_turnstile()
    }

    /// A reader enters the room if it can; returns whether it did.
    pub fn reader_enter(&mut self) -> (entered: bool)
        requires
            old(self).wf(),
            old(self)@.room.readers_inside < usize::MAX,
        ensures
            final(self).wf(),
            final(self)@.map == old(self)@.map,
            entered == old(self)@.room.reader_may_enter(),
            entered ==> final(self)@.room == old(self)@.room.after_reader_enter(),
            !entered ==> final(self)@.room == old(self)@.room,
    {
        self.lock.reader_enter()
    }

    /// A reader in the room looks up `k`.
    pub fn read(&self, k: &str) -> (v: String)
        requires
            self.wf(),
            self@.room.readers_inside > 0,
        ensures
            v@ == (if self@.map.dom().contains(k@) {
                self@.map[k@]
            } else {
                Seq::<char>::empty()
            }),
    {
        self.map.get(k)
    }

    /// A reader leaves the room; returns whether it was the last one.
    pub fn reader_exit(&mut self) -> (emptied: bool)
        requires
            old(self).wf(),
            old(self)@.room.readers_inside > 0,
        ensures
            final(self).wf(),
            final(self)@.map == old(self)@.map,
            final(self)@.room == old(self)@.room.after_reader_exit(),
            emptied == (old(self)@.room.readers_inside == 1),
    {
        self.lock.reader_exit()
    }

    /// A writer takes the turnstile if it is free; returns whether it did.
    pub fn writer_take_turnstile(&mut self) -> (taken: bool)
        requires
            old(self).wf(),
        ensures
            final(self).wf(),
            final(self)@.map == old(self)@.map,
            taken == old(self)@.room.turnstile_free,
            taken ==> final(self)@.room == (RoomView { turnstile_free: false, ..old(self)@.room }),
            !taken ==> final(self)@.room == old(self)@.room,
    {
        self.lock.writer_take_turnstile()
    }

    /// The writer holding the turnstile enters the room if it is empty.
    pub fn writer_enter(&mut self) -> (entered: bool)
        requires
            old(self).wf(),
            old(self)@.room.writer_waiting(),
        ensures
            final(self).wf(),
            final(self)@.map == old(self)@.map,
            entered == old(self)@.room.room_free,
            entered ==> final(self)@.room == (RoomView {
                room_free: false,
                writer_inside: true,
                ..old(self)@.room
            }),
            !entered ==> final(self)@.room == old(self)@.room,
    {
        self.lock.writer_enter()
    }

    /// The writer in the room stores `v` under `k`; no reader is inside.
    pub fn write(&mut self, k: String, v: String)
        requires
            old(self).wf(),
            old(self)@.room.writer_inside,
        ensures
            final(self).wf(),
            final(self)@.map == old(self)@.map.insert(k@, v@),
            final(self)@.room == old(self)@.room,
            final(self)@.room.readers_inside == 0,
    {
        self.map.set(k, v);
    }

    /// The writer leaves the room and gives back the turnstile.
    pub fn writer_exit(&mut self)
        requires
            old(self).wf(),
            old(self)@.room.writer_inside,
        ensures
            final(self).wf(),
            final(self)@.map == old(self)@.map,
            final(self)@.room == (RoomView {
                turnstile_free: true,
                room_free: true,
                writer_inside: false,
                ..old(self)@.room
            }),
    {
        self.lock.writer_exit()
    }
}

} // verus!

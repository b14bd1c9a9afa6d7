//! The open connections.

use vstd::prelude::*;
use crate::session::SpannerConnection;
use crate::session::SpannerConnectionView;
use crate::text::same_text;

verus! {

/// The open connections, each under its own name.
pub struct Connections {
    entries: Vec<(String, SpannerConnection)>,
}

impl View for Connections {
    type V = Map<Seq<char>, SpannerConnectionView>;

    closed spec fn view(&self) -> Map<Seq<char>, SpannerConnectionView> {
        Map::new(
            |id: Seq<char>| holds(self.entries@, id),
            |id: Seq<char>| self.entries@[position(self.entries@, id)].1@,
        )
    }
}

spec fn holds(entries: Seq<(String, SpannerConnection)>, id: Seq<char>) -> bool {
    exists|i: int| 0 <= i < entries.len() && (#[trigger] entries[i]).0@ == id
}

spec fn position(entries: Seq<(String, SpannerConnection)>, id: Seq<char>) -> int {
    choose|i: int| 0 <= i < entries.len() && (#[trigger] entries[i]).0@ == id
}

impl Connections {
    /// No two connections have the same name.
    pub closed spec fn wf(&self) -> bool {
        forall|i: int, j: int|
            0 <= i < j < self.entries@.len() ==> (#[trigger] self.entries@[i]).0@ != (
            #[trigger] self.entries@[j]).0@
    }

    /// No connections.
    pub fn new() -> (out: Connections)
        ensures
            out.wf(),
            out@ == Map::<Seq<char>, SpannerConnectionView>::empty(),
    {
        let out = Connections { entries: Vec::new() };
        assert(out@ =~= Map::<Seq<char>, SpannerConnectionView>::empty());
        out
    }

    fn find(&self, id: &str) -> (found: Option<usize>)
        requires
            self.wf(),
        ensures
            found is Some <==> self@.contains_key(id@),
            found matches Some(i) ==> i < self.entries@.len() && self.entries@[i as int].0@ == id@
                && position(self.entries@, id@) == i,
    {
        let mut i: usize = 0;
        while i < self.entries.len()
            invariant
                i <= self.entries@.len(),
                self.wf(),
                forall|j: int| 0 <= j < i ==> (#[trigger] self.entries@[j]).0@ != id@,
            decreases self.entries@.len() - i,
        {
            if same_text(self.entries[i].0.as_str(), id) {
                assert(self.entries@[i as int].0@ == id@);
                return Some(i);
            }
            i += 1;
        }
        None
    }

    /// The connection under that name.
    pub fn get(&self, id: &str) -> (found: Option<&SpannerConnection>)
        requires
            self.wf(),
        ensures
            found is Some <==> self@.contains_key(id@),
            found matches Some(connection) ==> connection@ == self@[id@],
    {
        match self.find(id) {
            Some(i) => Some(&self.entries[i].1),
            None => None,
        }
    }

    /// Puts a connection under a name, in place of the one that was there.
    pub fn insert(&mut self, id: &str, connection: SpannerConnection)
        requires
            old(self).wf(),
        ensures
            final(self).wf(),
            final(self)@ == old(self)@.insert(id@, connection@),
    {
        let ghost was = self.entries@;
        let ghost map = self@;
        let entry = (id.to_string(), connection);
        match self.find(id) {
            Some(i) => {
                self.entries.set(i, entry);
                assert(self.entries@ =~= was.update(i as int, entry));
                proof {
                    assert forall|other: Seq<char>| holds(self.entries@, other) == holds(
                        was,
                        other,
                    ) by {
                        if holds(was, other) {
                            let k = position(was, other);
                            assert(self.entries@[k].0@ == other);
                        }
                        if holds(self.entries@, other) {
                            let k = position(self.entries@, other);
                            assert(was[k].0@ == other);
                        }
                    }
                    assert forall|other: Seq<char>| holds(was, other) implies position(
                        self.entries@,
                        other,
                    ) == position(was, other) by {
                        let k = position(was, other);
                        assert(self.entries@[k].0@ == other);
                        let l = position(self.entries@, other);
                        assert(was[l].0@ == other);
                    }
                    assert(holds(was, id@));
                    assert(self@ =~= map.insert(id@, connection@));
                }
            },
            None => {
                self.entries.push(entry);
                assert(self.entries@ =~= was.push(entry));
                proof {
                    assert forall|i: int, j: int|
                        0 <= i < j < self.entries@.len() implies (#[trigger] self.entries@[i]).0@
                        != (#[trigger] self.entries@[j]).0@ by {
                        if j == was.len() {
                            assert(was[i].0@ != id@);
                        }
                    }
                    assert(self.entries@[was.len() as int].0@ == id@);
                    assert forall|other: Seq<char>| holds(self.entries@, other) == (holds(
                        was,
                        other,
                    ) || other == id@) by {
                        if holds(was, other) {
                            let k = position(was, other);
                            assert(self.entries@[k].0@ == other);
                        }
                        if holds(self.entries@, other) {
                            let k = position(self.entries@, other);
                            if k < was.len() {
                                assert(was[k].0@ == other);
                            }
                        }
                    }
                    assert forall|other: Seq<char>| holds(was, other) implies position(
                        self.entries@,
                        other,
                    ) == position(was, other) by {
                        let k = position(was, other);
                        assert(self.entries@[k].0@ == other);
                        let l = position(self.entries@, other);
                        assert(self.entries@[l].0@ == other);
                    }
                    assert(position(self.entries@, id@) == was.len());
                    assert(self@ =~= map.insert(id@, connection@));
                }
            },
        }
    }

    /// Takes the connection under that name out.
    pub fn remove(&mut self, id: &str) -> (found: Option<SpannerConnection>)
        requires
            old(self).wf(),
        ensures
            final(self).wf(),
            final(self)@ == old(self)@.remove(id@),
            found is Some <==> old(self)@.contains_key(id@),
            found matches Some(connection) ==> connection@ == old(self)@[id@],
    {
        let ghost was = self.entries@;
        let ghost map = self@;
        match self.find(id) {
            Some(i) => {
                let (_, connection) = self.entries.remove(i);
                assert(self.entries@ =~= was.remove(i as int));
                proof {
                    assert forall|k: int| 0 <= k < self.entries@.len() implies (
                    #[trigger] self.entries@[k]) == was[if k < i {
                        k
                    } else {
                        k + 1
                    }] by {}
                    assert forall|other: Seq<char>| holds(self.entries@, other) == (holds(
                        was,
                        other,
                    ) && other != id@) by {
                        if holds(was, other) && other != id@ {
                            let k = position(was, other);
                            assert(self.entries@[if k < i {
                                k
                            } else {
                                k - 1
                            }].0@ == other);
                        }
                        if holds(self.entries@, other) {
                            let k = position(self.entries@, other);
                            assert(was[if k < i {
                                k
                            } else {
                                k + 1
                            }].0@ == other);
                        }
                    }
                    assert forall|other: Seq<char>|
                        holds(self.entries@, other) implies self.entries@[position(
                        self.entries@,
                        other,
                    )] == was[position(was, other)] by {
                        let k = position(self.entries@, other);
                        let l = position(was, other);
                        let m = if k < i {
                            k
                        } else {
                            k + 1
                        };
                        assert(was[m].0@ == other);
                        assert(was[l].0@ == other);
                    }
                    assert(self@ =~= map.remove(id@));
                }
                Some(connection)
            },
            None => {
                assert(self@ =~= map.remove(id@));
                None
            },
        }
    }
}

} // verus!

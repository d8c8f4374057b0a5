//! The registry of live sessions: each gets an identifier, and leaves the
//! registry when its connection ends.

use vstd::prelude::*;

verus! {

/// Live sessions under increasing identifiers. What is stored per session is
/// up to the caller (a non-owning handle, so the registry never keeps a
/// session alive).
pub struct SocketTracker<T> {
    /// The identifier the next session gets.
    pub next_id: usize,
    pub sockets: Vec<(usize, T)>,
}

/// The entries of `s` whose identifier is not `id`.
pub open spec fn without_id<T>(s: Seq<(usize, T)>, id: usize) -> Seq<(usize, T)> {
    s.filter(|e: (usize, T)| e.0 != id)
}

/// Whether a new connection is admitted while `live` sessions run under a
/// cap of `limit`.
pub fn admit_client(live: u32, limit: u32) -> (r: bool)
    ensures
        r == (live < limit),
{
    live < limit
}

impl<T> SocketTracker<T> {
    /// An empty registry.
    pub fn new() -> (r: SocketTracker<T>)
        ensures
            r.next_id == 0,
            r.sockets@.len() == 0,
    {
        SocketTracker { next_id: 0, sockets: Vec::new() }
    }

    /// Registers a session; returns its identifier. Identifiers wrap around
    /// after `usize::MAX`.
    pub fn add_socket(&mut self, socket: T) -> (id: usize)
        ensures
            id == old(self).next_id,
            final(self).next_id == if id == usize::MAX {
                0
            } else {
                id + 1
            },
            final(self).sockets@ == old(self).sockets@.push((id, socket)),
    {
        let id = self.next_id;
        self.next_id = if id == usize::MAX {
            0
        } else {
            id + 1
        };
        self.sockets.push((id, socket));
        id
    }

    /// Removes every entry under `id`, keeping the others in order.
    pub fn remove_socket(&mut self, id: usize)
        ensures
            final(self).next_id == old(self).next_id,
            final(self).sockets@ == without_id(old(self).sockets@, id),
    {
        let mut rest: Vec<(usize, T)> = Vec::new();
        std::mem::swap(&mut rest, &mut self.sockets);
        let ghost all = rest@;
        let ghost pred = |e: (usize, T)| e.0 != id;
        proof {
            assert(all =~= Seq::<(usize, T)>::empty() + all);
            assert(Seq::<(usize, T)>::empty().filter(pred) =~= Seq::<(usize, T)>::empty());
        }
        while rest.len() > 0
            invariant
                pred == (|e: (usize, T)| e.0 != id),
                without_id(all, id) == self.sockets@ + without_id(rest@, id),
                self.next_id == old(self).next_id,
            decreases rest@.len(),
        {
            let ghost r0 = rest@;
            let entry = rest.remove(0);
            proof {
                assert(r0 =~= seq![entry] + rest@);
                Seq::filter_distributes_over_add(seq![entry], rest@, pred);
                reveal_with_fuel(Seq::filter, 2);
                assert(seq![entry].drop_last() =~= Seq::<(usize, T)>::empty());
            }
            if entry.0 != id {
                let ghost k0 = self.sockets@;
                self.sockets.push(entry);
                proof {
                    assert(seq![entry].filter(pred) =~= seq![entry]);
                    assert(k0 + without_id(r0, id) =~= self.sockets@ + without_id(rest@, id));
                }
            } else {
                proof {
                    assert(seq![entry].filter(pred) =~= Seq::<(usize, T)>::empty());
                    assert(without_id(r0, id) =~= without_id(rest@, id));
                }
            }
        }
        proof {
            assert(rest@.filter(pred) =~= Seq::<(usize, T)>::empty()) by {
                reveal_with_fuel(Seq::filter, 1);
            }
            assert(self.sockets@ + Seq::<(usize, T)>::empty() =~= self.sockets@);
        }
    }

    /// The number of live sessions.
    pub fn size(&self) -> (r: usize)
        ensures
            r == self.sockets@.len(),
    {
        self.sockets.len()
    }
}

} // verus!

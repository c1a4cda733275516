//! The keygen result store: an in-memory map from meta hash to stored
//! result, and the hex string under which a result is persisted on disk.

use vstd::prelude::*;

use crate::keygen_state_machine::WstsState;

verus! {

/// The sixteen lowercase hexadecimal digits.
pub open spec fn hex_digits() -> Seq<char> {
    seq!['0', '1', '2', '3', '4', '5', '6', '7', '8', '9', 'a', 'b', 'c', 'd', 'e', 'f']
}

/// The lowercase hexadecimal rendering of a byte string: two digits per
/// byte, high nibble first.
pub open spec fn hex_of(b: Seq<u8>) -> Seq<char>
    decreases b.len(),
{
    if b.len() == 0 {
        Seq::empty()
    } else {
        seq![
            hex_digits()[(b[0] / 16) as int],
            hex_digits()[(b[0] % 16) as int],
        ] + hex_of(b.drop_first())
    }
}

/// Relies on `hex::encode`: two lowercase hexadecimal digits per input
/// byte, high nibble first.
#[verifier::external_body]
fn hex_encode(b: &Vec<u8>) -> (r: String)
    ensures
        r@ == hex_of(b@),
{
    hex::encode(b.as_slice())
}

/// The key under which a keygen result is persisted: the lowercase hex of
/// its meta hash.
pub fn store_key_for(meta_hash: &Vec<u8>) -> (r: String)
    ensures
        r@ == hex_of(meta_hash@),
{
    hex_encode(meta_hash)
}

/// An in-memory store of keygen results, keyed by the 32-byte meta hash of
/// the session that produced each.
pub struct KeygenStore {
    /// The stored results, one entry per distinct key.
    pub entries: Vec<(Vec<u8>, WstsState)>,
}

impl KeygenStore {
    /// Every key appears at most once.
    pub open spec fn wf(self) -> bool {
        forall|i: int, j: int|
            0 <= i < self.entries@.len() && 0 <= j < self.entries@.len() && i != j
                ==> (#[trigger] self.entries@[i]).0@ != (#[trigger] self.entries@[j]).0@
    }

    /// Whether a result is stored under `k`.
    pub open spec fn has_key(self, k: Seq<u8>) -> bool {
        exists|i: int|
            0 <= i < self.entries@.len() && (#[trigger] self.entries@[i]).0@ == k
    }

    /// The position of the entry stored under `k`.
    pub open spec fn index_of(self, k: Seq<u8>) -> int {
        choose|i: int| 0 <= i < self.entries@.len() && (#[trigger] self.entries@[i]).0@ == k
    }

    /// The result stored under `k`.
    pub open spec fn value_for(self, k: Seq<u8>) -> WstsState {
        self.entries@[self.index_of(k)].1
    }

    /// An empty store.
    pub fn new() -> (r: KeygenStore)
        ensures
            r.wf(),
            forall|k: Seq<u8>| !r.has_key(k),
    {
        KeygenStore { entries: Vec::new() }
    }

    /// Finds the position of `key`, if stored.
    fn find(&self, key: &Vec<u8>) -> (r: Option<usize>)
        ensures
            r matches Some(i) ==> i < self.entries@.len() && self.entries@[i as int].0@ == key@,
            r is None ==> forall|i: int|
                0 <= i < self.entries@.len() ==> (#[trigger] self.entries@[i]).0@ != key@,
            r is Some <==> self.has_key(key@),
    {
        let mut i: usize = 0;
        while i < self.entries.len()
            invariant
                i <= self.entries@.len(),
                forall|j: int| 0 <= j < i ==> (#[trigger] self.entries@[j]).0@ != key@,
            decreases self.entries@.len() - i,
        {
            if bytes_equal(&self.entries[i].0, key) {
                return Some(i);
            }
            i = i + 1;
        }
        None
    }

    /// Stores `state` under `key`, replacing what an earlier keygen with
    /// the same session left. Every other key keeps its entry.
    pub fn put(&mut self, key: Vec<u8>, state: WstsState)
        requires
            old(self).wf(),
        ensures
            final(self).wf(),
            final(self).has_key(key@),
            final(self).value_for(key@) == state,
            forall|k: Seq<u8>|
                k != key@ ==> (#[trigger] final(self).has_key(k)) == old(self).has_key(k),
            forall|k: Seq<u8>|
                k != key@ && old(self).has_key(k) ==> (#[trigger] final(self).value_for(k)) == old(
                    self,
                ).value_for(k),
    {
        let found = self.find(&key);
        match found {
            Some(i) => {
                self.entries.set(i, (key, state));
                proof {
                    let ghost k = self.entries@[i as int].0@;
                    assert(self.entries@[i as int].0@ == k && self.entries@[i as int].1 == state);
                    assert forall|a: int, b: int|
                        0 <= a < self.entries@.len() && 0 <= b < self.entries@.len() && a != b
                            implies (#[trigger] self.entries@[a]).0@ != (
                    #[trigger] self.entries@[b]).0@ by {
                        assert(old(self).entries@[a].0@ != old(self).entries@[b].0@);
                    }
                    assert(self.has_key(k));
                    assert(self.index_of(k) == i);
                    assert forall|q: Seq<u8>| q != k implies (#[trigger] self.has_key(q)) == old(
                        self,
                    ).has_key(q) by {
                        if old(self).has_key(q) {
                            let w = old(self).index_of(q);
                            assert(old(self).entries@[w].0@ == q);
                            assert(w != i);
                            assert(self.entries@[w].0@ == q);
                        }
                        if self.has_key(q) {
                            let w = self.index_of(q);
                            assert(self.entries@[w].0@ == q);
                            assert(w != i);
                            assert(old(self).entries@[w].0@ == q);
                        }
                    }
                    assert forall|q: Seq<u8>| q != k && old(self).has_key(q) implies (
                    #[trigger] self.value_for(q)) == old(self).value_for(q) by {
                        assert(self.has_key(q));
                        let w = self.index_of(q);
                        assert(self.entries@[w].0@ == q);
                        assert(w != i);
                        let w2 = old(self).index_of(q);
                        assert(old(self).entries@[w2].0@ == q);
                        assert(w2 != i);
                        assert(self.entries@[w2].0@ == q);
                        assert(w == w2);
                    }
                }
            },
            None => {
                let ghost n = self.entries@.len();
                self.entries.push((key, state));
                proof {
                    let ghost k = self.entries@[n as int].0@;
                    assert forall|a: int, b: int|
                        0 <= a < self.entries@.len() && 0 <= b < self.entries@.len() && a != b
                            implies (#[trigger] self.entries@[a]).0@ != (
                    #[trigger] self.entries@[b]).0@ by {
                        if a < n && b < n {
                            assert(old(self).entries@[a].0@ != old(self).entries@[b].0@);
                        } else if a == n {
                            assert(old(self).entries@[b].0@ != k);
                        } else {
                            assert(old(self).entries@[a].0@ != k);
                        }
                    }
                    assert(self.has_key(k));
                    assert(self.index_of(k) == n);
                    assert forall|q: Seq<u8>| q != k implies (#[trigger] self.has_key(q)) == old(
                        self,
                    ).has_key(q) by {
                        if old(self).has_key(q) {
                            let w = old(self).index_of(q);
                            assert(old(self).entries@[w].0@ == q);
                            assert(self.entries@[w].0@ == q);
                        }
                        if self.has_key(q) {
                            let w = self.index_of(q);
                            assert(self.entries@[w].0@ == q);
                            assert(w != n);
                            assert(old(self).entries@[w].0@ == q);
                        }
                    }
                    assert forall|q: Seq<u8>| q != k && old(self).has_key(q) implies (
                    #[trigger] self.value_for(q)) == old(self).value_for(q) by {
                        assert(self.has_key(q));
                        let w = self.index_of(q);
                        assert(self.entries@[w].0@ == q);
                        assert(w != n);
                        let w2 = old(self).index_of(q);
                        assert(old(self).entries@[w2].0@ == q);
                        assert(self.entries@[w2].0@ == q);
                        assert(w == w2);
                    }
                }
            },
        }
    }

    /// Looks up the result stored under `key`.
    pub fn get(&self, key: &Vec<u8>) -> (r: Option<&WstsState>)
        requires
            self.wf(),
        ensures
            r is Some <==> self.has_key(key@),
            r matches Some(st) ==> *st == self.value_for(key@),
    {
        match self.find(key) {
            Some(i) => {
                proof {
                    assert(self.has_key(key@));
                    let w = self.index_of(key@);
                    assert(self.entries@[w].0@ == key@);
                    assert(w == i);
                }
                Some(&self.entries[i].1)
            },
            None => None,
        }
    }
}

/// Compares two byte strings.
fn bytes_equal(a: &Vec<u8>, b: &Vec<u8>) -> (r: bool)
    ensures
        r == (a@ == b@),
{
    if a.len() != b.len() {
        return false;
    }
    let mut i: usize = 0;
    while i < a.len()
        invariant
            i <= a@.len(),
            a@.len() == b@.len(),
            forall|j: int| 0 <= j < i ==> a@[j] == b@[j],
        decreases a@.len() - i,
    {
        if a[i] != b[i] {
            return false;
        }
        i = i + 1;
    }
    proof {
        assert(a@ =~= b@);
    }
    true
}

} // verus!

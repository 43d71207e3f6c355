//! The registry of live sessions used for broadcast. Each entry carries the
//! connection's address pair as its key and a handle to send on.
use vstd::prelude::*;

verus! {

/// The local and peer addresses of one connection; IPv4 addresses are kept
/// in their IPv6-mapped form.
#[derive(PartialEq, Eq, Structural, Clone, Copy, Debug)]
pub struct AddrPair {
    pub local_ip: u128,
    pub local_port: u16,
    pub peer_ip: u128,
    pub peer_port: u16,
}

/// One live session: its key and its handle.
pub struct Session<H> {
    pub key: AddrPair,
    pub handle: H,
}

/// `s` holds an entry with key `k`.
pub open spec fn has_key<H>(s: Seq<Session<H>>, k: AddrPair) -> bool {
    exists|i: int| 0 <= i < s.len() && #[trigger] s[i].key == k
}

/// `s` without its entries with key `k`, the others in their order.
pub open spec fn without_key<H>(s: Seq<Session<H>>, k: AddrPair) -> Seq<Session<H>>
    decreases s.len(),
{
    if s.len() == 0 {
        s
    } else {
        let rest = without_key(s.drop_last(), k);
        if s.last().key == k {
            rest
        } else {
            rest.push(s.last())
        }
    }
}

/// A change to the registry.
pub enum RegistryOp<H> {
    Join(Session<H>),
    Leave(AddrPair),
}

pub open spec fn apply_op<H>(s: Seq<Session<H>>, op: RegistryOp<H>) -> Seq<Session<H>> {
    match op {
        RegistryOp::Join(e) => s.push(e),
        RegistryOp::Leave(k) => without_key(s, k),
    }
}

/// The registry after `ops`, applied in order to an empty one.
pub open spec fn replay<H>(ops: Seq<RegistryOp<H>>) -> Seq<Session<H>>
    decreases ops.len(),
{
    if ops.len() == 0 {
        Seq::empty()
    } else {
        apply_op(replay(ops.drop_last()), ops.last())
    }
}

/// The last change in `ops` that names `k` is a join.
pub open spec fn last_is_join<H>(ops: Seq<RegistryOp<H>>, k: AddrPair) -> bool
    decreases ops.len(),
{
    if ops.len() == 0 {
        false
    } else {
        match ops.last() {
            RegistryOp::Join(e) => e.key == k || last_is_join(ops.drop_last(), k),
            RegistryOp::Leave(q) => q != k && last_is_join(ops.drop_last(), k),
        }
    }
}

/// Removing key `k` keeps exactly the entries with other keys.
pub proof fn lemma_without_key<H>(s: Seq<Session<H>>, k: AddrPair)
    ensures
        !has_key(without_key(s, k), k),
        forall|q: AddrPair|
            #![trigger has_key(without_key(s, k), q)]
            #![trigger has_key(s, q)]
            q != k ==> (has_key(without_key(s, k), q) <==> has_key(s, q)),
        without_key(s, k).len() <= s.len(),
    decreases s.len(),
{
    if s.len() > 0 {
        let p = s.drop_last();
        lemma_without_key(p, k);
        let w = without_key(s, k);
        let wp = without_key(p, k);
        assert(w == if s.last().key == k {
            wp
        } else {
            wp.push(s.last())
        });
        assert forall|q: AddrPair| has_key(w, q) implies q != k && has_key(s, q) by {
            let i = choose|i: int| 0 <= i < w.len() && #[trigger] w[i].key == q;
            if i < wp.len() {
                assert(wp[i].key == q);
                assert(has_key(wp, q));
                assert(q != k);
                assert(has_key(p, q));
                let j = choose|j: int| 0 <= j < p.len() && #[trigger] p[j].key == q;
                assert(s[j].key == q);
            } else {
                assert(s[s.len() - 1].key == q);
            }
        }
        assert forall|q: AddrPair| q != k && has_key(s, q) implies has_key(w, q) by {
            let j = choose|j: int| 0 <= j < s.len() && #[trigger] s[j].key == q;
            if j < p.len() {
                assert(p[j].key == q);
                assert(has_key(p, q));
                let i = choose|i: int| 0 <= i < wp.len() && #[trigger] wp[i].key == q;
                assert(w[i].key == q);
            } else {
                assert(w[w.len() - 1].key == q);
            }
        }
    }
}

/// Whatever the interleaving of joins and leaves, starting from an empty
/// registry, a key is present afterwards exactly when the last change that
/// names it was a join.
pub proof fn lemma_replay_membership<H>(ops: Seq<RegistryOp<H>>, k: AddrPair)
    ensures
        has_key(replay(ops), k) <==> last_is_join(ops, k),
    decreases ops.len(),
{
    if ops.len() > 0 {
        let p = ops.drop_last();
        lemma_replay_membership(p, k);
        let before = replay(p);
        match ops.last() {
            RegistryOp::Join(e) => {
                let after = before.push(e);
                if e.key == k {
                    assert(after[after.len() - 1].key == k);
                } else {
                    if has_key(after, k) {
                        let i = choose|i: int| 0 <= i < after.len() && #[trigger] after[i].key == k;
                        assert(before[i].key == k);
                    }
                    if has_key(before, k) {
                        let i = choose|i: int| 0 <= i < before.len() && #[trigger] before[i].key == k;
                        assert(after[i].key == k);
                    }
                }
            },
            RegistryOp::Leave(q) => {
                lemma_without_key(before, q);
            },
        }
    }
}

/// When every connection that joined has since left, the registry is empty:
/// no entry outlives the close of its connection.
pub proof fn lemma_all_left_empty<H>(ops: Seq<RegistryOp<H>>)
    requires
        forall|k: AddrPair| !last_is_join(ops, k),
    ensures
        replay(ops).len() == 0,
{
    let s = replay(ops);
    if s.len() > 0 {
        let k = s[0].key;
        lemma_replay_membership(ops, k);
        assert(has_key(s, k));
    }
}

/// The live sessions, in the order they joined.
pub struct SessionRegistry<H> {
    entries: Vec<Session<H>>,
}

impl<H> SessionRegistry<H> {
    pub closed spec fn view(&self) -> Seq<Session<H>> {
        self.entries@
    }

    pub fn new() -> (r: Self)
        ensures
            r@ == Seq::<Session<H>>::empty(),
    {
        SessionRegistry { entries: Vec::new() }
    }

    pub fn len(&self) -> (r: usize)
        ensures
            r == self@.len(),
    {
        self.entries.len()
    }

    /// The handle of the `i`-th entry; broadcast walks them all.
    pub fn handle(&self, i: usize) -> (r: &H)
        requires
            i < self@.len(),
        ensures
            *r == self@[i as int].handle,
    {
        &self.entries[i].handle
    }

    /// The key of the `i`-th entry.
    pub fn key(&self, i: usize) -> (r: AddrPair)
        requires
            i < self@.len(),
        ensures
            r == self@[i as int].key,
    {
        self.entries[i].key
    }

    pub fn contains(&self, key: AddrPair) -> (r: bool)
        ensures
            r == has_key(self@, key),
    {
        let mut i: usize = 0;
        while i < self.entries.len()
            invariant
                i <= self@.len(),
                forall|j: int| 0 <= j < i ==> #[trigger] self@[j].key != key,
            decreases self@.len() - i,
        {
            if self.entries[i].key == key {
                return true;
            }
            i = i + 1;
        }
        false
    }

    /// Adds a session at the end.
    pub fn add(&mut self, key: AddrPair, handle: H)
        ensures
            final(self)@ == apply_op(old(self)@, RegistryOp::Join(Session { key, handle })),
    {
        self.entries.push(Session { key, handle });
    }

    /// Removes every session with this key, none or several, and returns
    /// how many were removed.
    pub fn remove_matching(&mut self, key: AddrPair) -> (r: usize)
        ensures
            final(self)@ == apply_op(old(self)@, RegistryOp::<H>::Leave(key)),
            !has_key(final(self)@, key),
            r == old(self)@.len() - final(self)@.len(),
    {
        let ghost orig = self.entries@;
        let start_len = self.entries.len();
        let ghost mut j: int = 0;
        let mut i: usize = 0;
        assert(self.entries@.take(0) =~= without_key(orig.take(0), key));
        assert(self.entries@.skip(0) =~= orig.skip(0));
        while i < self.entries.len()
            invariant
                0 <= i <= j <= orig.len(),
                self.entries@.take(i as int) == without_key(orig.take(j), key),
                self.entries@.skip(i as int) == orig.skip(j),
                self.entries@.len() == i + orig.len() - j,
            decreases orig.len() - j,
        {
            let ghost cur = self.entries@;
            assert(cur[i as int] == orig[j]) by {
                assert(cur.skip(i as int)[0] == orig.skip(j)[0]);
            }
            assert(orig.take(j + 1).drop_last() =~= orig.take(j));
            if self.entries[i].key == key {
                self.entries.remove(i);
                assert(self.entries@.take(i as int) =~= cur.take(i as int));
                assert forall|m: int| 0 <= m < self.entries@.len() - i implies self.entries@.skip(
                    i as int,
                )[m] == orig.skip(j + 1)[m] by {
                    assert(cur.skip(i as int)[m + 1] == orig.skip(j)[m + 1]);
                }
                assert(self.entries@.skip(i as int) =~= orig.skip(j + 1));
            } else {
                assert(self.entries@.take(i + 1) =~= cur.take(i as int).push(orig[j]));
                assert forall|m: int| 0 <= m < self.entries@.len() - i - 1 implies #[trigger] self.entries@.skip(
                    i + 1,
                )[m] == orig.skip(j + 1)[m] by {
                    assert(cur.skip(i as int)[m + 1] == orig.skip(j)[m + 1]);
                }
                assert(self.entries@.skip(i + 1) =~= orig.skip(j + 1));
                i = i + 1;
            }
            proof {
                j = j + 1;
            }
        }
        assert(orig.take(j) =~= orig);
        assert(self.entries@.take(i as int) =~= self.entries@);
        proof {
            lemma_without_key(orig, key);
        }
        start_len - self.entries.len()
    }
}

} // verus!

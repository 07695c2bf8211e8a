//! Resume checkpoints for long multi-pass wipes: an in-memory store keyed
//! by device path, holding the pass to resume from. Persisting the store
//! is the caller's concern; the replace/lookup/delete logic is verified.

use vstd::prelude::*;
use crate::patterns::DriveEncoding;

verus! {

/// One saved resume point.
#[derive(Debug)]
pub struct WipeCheckpoint {
    pub device_path: String,
    pub current_pass: u32,
    pub total_size: u64,
    pub encoding: DriveEncoding,
}

/// The view of a checkpoint: path characters plus the plain fields.
pub open spec fn cp_view(c: WipeCheckpoint) -> (Seq<char>, u32, u64, DriveEncoding) {
    (c.device_path@, c.current_pass, c.total_size, c.encoding)
}

/// First entry recorded for a path, if any.
pub open spec fn lookup_spec(entries: Seq<WipeCheckpoint>, path: Seq<char>) -> Option<
    (Seq<char>, u32, u64, DriveEncoding),
>
    decreases entries.len(),
{
    if entries.len() == 0 {
        None
    } else if entries[0].device_path@ == path {
        Some(cp_view(entries[0]))
    } else {
        lookup_spec(entries.drop_first(), path)
    }
}

/// Checkpoint store; at most one entry per device path.
pub struct CheckpointStore {
    pub entries: Vec<WipeCheckpoint>,
}

impl CheckpointStore {
    /// Every stored path occurs once.
    pub open spec fn wf(&self) -> bool {
        forall|i: int, j: int| 0 <= i < j < self.entries@.len()
            ==> (#[trigger] self.entries@[i]).device_path@ != (
        #[trigger] self.entries@[j]).device_path@
    }

    /// An empty store.
    pub fn new() -> (r: Self)
        ensures
            r.entries@.len() == 0,
            r.wf(),
    {
        CheckpointStore { entries: Vec::new() }
    }

    /// Index of the entry for a path, if present.
    fn find_index(&self, device_path: &str) -> (r: Option<usize>)
        ensures
            match r {
                Some(i) => i < self.entries@.len() && self.entries@[i as int].device_path@
                    == device_path@,
                None => forall|i: int| 0 <= i < self.entries@.len()
                    ==> (#[trigger] self.entries@[i]).device_path@ != device_path@,
            },
    {
        let target: String = device_path.to_owned();
        let n = self.entries.len();
        let mut i: usize = 0;
        while i < n
            invariant
                target@ == device_path@,
                n == self.entries@.len(),
                0 <= i <= n,
                forall|k: int| 0 <= k < i ==> (#[trigger] self.entries@[k]).device_path@
                    != device_path@,
            decreases n - i,
        {
            if self.entries[i].device_path.eq(&target) {
                return Some(i);
            }
            i += 1;
        }
        None
    }

    /// Record (or replace) the resume point for a device.
    pub fn save_checkpoint(
        &mut self,
        device_path: &str,
        current_pass: u32,
        total_size: u64,
        encoding: DriveEncoding,
    )
        requires
            old(self).wf(),
        ensures
            final(self).wf(),
            lookup_spec(final(self).entries@, device_path@) == Some(
                (device_path@, current_pass, total_size, encoding),
            ),
            forall|p: Seq<char>| p != device_path@ ==> #[trigger] lookup_spec(
                final(self).entries@,
                p,
            ) == lookup_spec(old(self).entries@, p),
    {
        let replacement = WipeCheckpoint {
            device_path: device_path.to_owned(),
            current_pass,
            total_size,
            encoding,
        };
        match self.find_index(device_path) {
            Some(i) => {
                let ghost before = self.entries@;
                self.entries.set(i, replacement);
                proof {
                    lemma_lookup_set(before, self.entries@, i as int, device_path@);
                }
            },
            None => {
                let ghost before = self.entries@;
                self.entries.push(replacement);
                proof {
                    lemma_lookup_push(before, self.entries@, device_path@);
                }
            },
        }
    }

    /// The saved resume point for a device, if any.
    pub fn load_checkpoint(&self, device_path: &str) -> (r: Option<WipeCheckpoint>)
        requires
            self.wf(),
        ensures
            match r {
                Some(c) => lookup_spec(self.entries@, device_path@) == Some(cp_view(c))
                    && c.device_path@ == device_path@,
                None => lookup_spec(self.entries@, device_path@) is None,
            },
    {
        match self.find_index(device_path) {
            Some(i) => {
                let e = &self.entries[i];
                proof {
                    lemma_lookup_found(self.entries@, i as int, device_path@);
                }
                Some(
                    WipeCheckpoint {
                        device_path: clone_string(&e.device_path),
                        current_pass: e.current_pass,
                        total_size: e.total_size,
                        encoding: e.encoding,
                    },
                )
            },
            None => {
                proof {
                    lemma_lookup_absent(self.entries@, device_path@);
                }
                None
            },
        }
    }

    /// Forget the resume point for a device.
    pub fn delete_checkpoint(&mut self, device_path: &str)
        requires
            old(self).wf(),
        ensures
            final(self).wf(),
            lookup_spec(final(self).entries@, device_path@) is None,
            forall|p: Seq<char>| p != device_path@ ==> #[trigger] lookup_spec(
                final(self).entries@,
                p,
            ) == lookup_spec(old(self).entries@, p),
    {
        match self.find_index(device_path) {
            Some(i) => {
                let ghost before = self.entries@;
                self.entries.remove(i);
                proof {
                    lemma_lookup_remove(before, self.entries@, i as int, device_path@);
                    lemma_lookup_absent(self.entries@, device_path@);
                }
            },
            None => {
                proof {
                    lemma_lookup_absent(self.entries@, device_path@);
                }
            },
        }
    }
}

/// A copy of a string with the same characters.
fn clone_string(s: &String) -> (r: String)
    ensures
        r@ == s@,
{
    s.as_str().to_owned()
}

/// When no entry carries the path, lookup yields nothing.
proof fn lemma_lookup_absent(entries: Seq<WipeCheckpoint>, path: Seq<char>)
    requires
        forall|i: int| 0 <= i < entries.len() ==> (#[trigger] entries[i]).device_path@ != path,
    ensures
        lookup_spec(entries, path) is None,
    decreases entries.len(),
{
    if entries.len() > 0 {
        lemma_lookup_absent(entries.drop_first(), path);
    }
}

/// With unique paths, lookup returns the entry found at `i`.
proof fn lemma_lookup_found(entries: Seq<WipeCheckpoint>, i: int, path: Seq<char>)
    requires
        0 <= i < entries.len(),
        entries[i].device_path@ == path,
        forall|a: int, b: int| 0 <= a < b < entries.len() ==> (
        #[trigger] entries[a]).device_path@ != (#[trigger] entries[b]).device_path@,
    ensures
        lookup_spec(entries, path) == Some(cp_view(entries[i])),
    decreases entries.len(),
{
    if i == 0 {
    } else {
        assert(entries[0].device_path@ != path);
        lemma_lookup_found(entries.drop_first(), i - 1, path);
        assert(entries.drop_first()[i - 1] == entries[i]);
    }
}

/// Replacing the entry at `i` updates only its own path's lookup.
proof fn lemma_lookup_set(before: Seq<WipeCheckpoint>, after: Seq<WipeCheckpoint>, i: int, path: Seq<char>)
    requires
        0 <= i < before.len(),
        after == before.update(i, after[i]),
        after.len() == before.len(),
        before[i].device_path@ == path,
        after[i].device_path@ == path,
        forall|a: int, b: int| 0 <= a < b < before.len() ==> (
        #[trigger] before[a]).device_path@ != (#[trigger] before[b]).device_path@,
    ensures
        forall|a: int, b: int| 0 <= a < b < after.len() ==> (#[trigger] after[a]).device_path@
            != (#[trigger] after[b]).device_path@,
        lookup_spec(after, path) == Some(cp_view(after[i])),
        forall|p: Seq<char>| p != path ==> #[trigger] lookup_spec(after, p) == lookup_spec(
            before,
            p,
        ),
{
    assert(forall|a: int| 0 <= a < after.len() && a != i ==> #[trigger] after[a] == before[a]);
    lemma_lookup_found(after, i, path);
    assert forall|p: Seq<char>| p != path implies #[trigger] lookup_spec(after, p)
        == lookup_spec(before, p) by {
        lemma_lookup_frame(before, after, i, p);
    }
}

/// Entries other than `i` are untouched, so other lookups agree.
proof fn lemma_lookup_frame(
    before: Seq<WipeCheckpoint>,
    after: Seq<WipeCheckpoint>,
    i: int,
    p: Seq<char>,
)
    requires
        before.len() == after.len(),
        0 <= i < before.len(),
        forall|a: int| 0 <= a < after.len() && a != i ==> #[trigger] after[a] == before[a],
        before[i].device_path@ != p || after[i].device_path@ != p,
        before[i].device_path@ == after[i].device_path@,
    ensures
        lookup_spec(after, p) == lookup_spec(before, p),
    decreases before.len(),
{
    if before.len() > 0 {
        if i == 0 {
            if before[0].device_path@ == p {
            } else {
                assert(forall|a: int| 0 <= a < after.drop_first().len()
                    ==> #[trigger] after.drop_first()[a] == before.drop_first()[a]);
                lemma_lookup_same(before.drop_first(), after.drop_first(), p);
            }
        } else {
            assert(after[0] == before[0]);
            if before[0].device_path@ == p {
            } else {
                assert(forall|a: int| 0 <= a < after.drop_first().len() && a != i - 1
                    ==> #[trigger] after.drop_first()[a] == before.drop_first()[a]);
                assert(before.drop_first()[i - 1] == before[i]);
                assert(after.drop_first()[i - 1] == after[i]);
                lemma_lookup_frame(before.drop_first(), after.drop_first(), i - 1, p);
            }
        }
    }
}

/// Identical sequences give identical lookups.
proof fn lemma_lookup_same(a: Seq<WipeCheckpoint>, b: Seq<WipeCheckpoint>, p: Seq<char>)
    requires
        a.len() == b.len(),
        forall|k: int| 0 <= k < a.len() ==> #[trigger] b[k] == a[k],
    ensures
        lookup_spec(a, p) == lookup_spec(b, p),
    decreases a.len(),
{
    if a.len() > 0 {
        assert(b[0] == a[0]);
        assert(forall|k: int| 0 <= k < a.drop_first().len() ==> #[trigger] b.drop_first()[k]
            == a.drop_first()[k]);
        lemma_lookup_same(a.drop_first(), b.drop_first(), p);
    }
}

/// Appending a new path adds its lookup and keeps the others.
proof fn lemma_lookup_push(before: Seq<WipeCheckpoint>, after: Seq<WipeCheckpoint>, path: Seq<char>)
    requires
        after == before.push(after.last()),
        after.len() == before.len() + 1,
        after.last().device_path@ == path,
        forall|i: int| 0 <= i < before.len() ==> (#[trigger] before[i]).device_path@ != path,
        forall|a: int, b: int| 0 <= a < b < before.len() ==> (
        #[trigger] before[a]).device_path@ != (#[trigger] before[b]).device_path@,
    ensures
        forall|a: int, b: int| 0 <= a < b < after.len() ==> (#[trigger] after[a]).device_path@
            != (#[trigger] after[b]).device_path@,
        lookup_spec(after, path) == Some(cp_view(after.last())),
        forall|p: Seq<char>| p != path ==> #[trigger] lookup_spec(after, p) == lookup_spec(
            before,
            p,
        ),
    decreases before.len(),
{
    assert(forall|a: int| 0 <= a < before.len() ==> #[trigger] after[a] == before[a]);
    lemma_lookup_found(after, after.len() - 1, path);
    assert forall|p: Seq<char>| p != path implies #[trigger] lookup_spec(after, p)
        == lookup_spec(before, p) by {
        lemma_lookup_push_other(before, after, p);
    }
}

proof fn lemma_lookup_push_other(
    before: Seq<WipeCheckpoint>,
    after: Seq<WipeCheckpoint>,
    p: Seq<char>,
)
    requires
        after.len() == before.len() + 1,
        forall|a: int| 0 <= a < before.len() ==> #[trigger] after[a] == before[a],
        after.last().device_path@ != p,
    ensures
        lookup_spec(after, p) == lookup_spec(before, p),
    decreases before.len(),
{
    if before.len() == 0 {
    } else {
        assert(after[0] == before[0]);
        if before[0].device_path@ == p {
        } else {
            assert(forall|a: int| 0 <= a < before.drop_first().len()
                ==> #[trigger] after.drop_first()[a] == before.drop_first()[a]);
            assert(after.drop_first().last() == after.last());
            lemma_lookup_push_other(before.drop_first(), after.drop_first(), p);
        }
    }
}

/// Removing the entry for a path erases only its own lookup.
proof fn lemma_lookup_remove(before: Seq<WipeCheckpoint>, after: Seq<WipeCheckpoint>, i: int, path: Seq<char>)
    requires
        0 <= i < before.len(),
        after == before.remove(i),
        before[i].device_path@ == path,
        forall|a: int, b: int| 0 <= a < b < before.len() ==> (
        #[trigger] before[a]).device_path@ != (#[trigger] before[b]).device_path@,
    ensures
        forall|a: int, b: int| 0 <= a < b < after.len() ==> (#[trigger] after[a]).device_path@
            != (#[trigger] after[b]).device_path@,
        forall|a: int| 0 <= a < after.len() ==> (#[trigger] after[a]).device_path@ != path,
        forall|p: Seq<char>| p != path ==> #[trigger] lookup_spec(after, p) == lookup_spec(
            before,
            p,
        ),
    decreases before.len(),
{
    assert(forall|a: int| 0 <= a < i ==> #[trigger] after[a] == before[a]);
    assert(forall|a: int| i <= a < after.len() ==> #[trigger] after[a] == before[a + 1]);
    assert forall|a: int| 0 <= a < after.len() implies (#[trigger] after[a]).device_path@
        != path by {
        if a < i {
            assert(after[a] == before[a]);
        } else {
            assert(after[a] == before[a + 1]);
        }
    }
    assert forall|p: Seq<char>| p != path implies #[trigger] lookup_spec(after, p)
        == lookup_spec(before, p) by {
        lemma_lookup_remove_other(before, after, i, p);
    }
}

proof fn lemma_lookup_remove_other(
    before: Seq<WipeCheckpoint>,
    after: Seq<WipeCheckpoint>,
    i: int,
    p: Seq<char>,
)
    requires
        0 <= i < before.len(),
        after == before.remove(i),
        before[i].device_path@ != p,
    ensures
        lookup_spec(after, p) == lookup_spec(before, p),
    decreases before.len(),
{
    if i == 0 {
        assert(after =~= before.drop_first());
    } else {
        assert(after[0] == before[0]);
        if before[0].device_path@ == p {
            assert(after.len() > 0);
        } else {
            assert(after.drop_first() =~= before.drop_first().remove(i - 1));
            assert(before.drop_first()[i - 1] == before[i]);
            lemma_lookup_remove_other(before.drop_first(), after.drop_first(), i - 1, p);
        }
    }
}

} // verus!

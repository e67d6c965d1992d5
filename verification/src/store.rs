use vstd::prelude::*;
use crate::errors::StoreError;
use crate::hive::Root;

verus! {

/// A value held by the store under one (root, path, name) address. The store
/// of this system only ever writes 32-bit integers, but other tools may leave
/// values of other types at the same addresses; those read back as
/// [`StoredValue::Other`] and fail a typed read.
#[derive(Clone, Copy, Debug, PartialEq, Eq, Structural)]
pub enum StoredValue {
    /// A 32-bit unsigned integer.
    Dword(u32),
    /// A value of some other type.
    Other,
}

/// One existing key of the store: a path of segments under a root.
struct KeyRecord {
    root: Root,
    path: Vec<String>,
}

/// One recorded write: a value at (root, path, name). Later records shadow
/// earlier ones at the same address (last writer wins).
struct ValueRecord {
    root: Root,
    path: Vec<String>,
    name: String,
    value: StoredValue,
}

/// Whether a key record is the key (r, p).
spec fn key_rec_matches(k: KeyRecord, r: Root, p: Seq<Seq<char>>) -> bool {
    k.root == r && k.path.deep_view() == p
}

/// Whether a value record sits at the address (r, p, n).
spec fn rec_matches(rec: ValueRecord, r: Root, p: Seq<Seq<char>>, n: Seq<char>) -> bool {
    rec.root == r && rec.path.deep_view() == p && rec.name@ == n
}

/// The value that a record sequence holds at (r, p, n): the value of the
/// latest matching record, or `None` where no record matches.
spec fn seq_value_of(recs: Seq<ValueRecord>, r: Root, p: Seq<Seq<char>>, n: Seq<char>) -> Option<
    StoredValue,
>
    decreases recs.len(),
{
    if recs.len() == 0 {
        None
    } else if rec_matches(recs.last(), r, p, n) {
        Some(recs.last().value)
    } else {
        seq_value_of(recs.drop_last(), r, p, n)
    }
}

/// `p2` addresses `p` itself or one of the keys on the way down to it.
pub open spec fn is_prefix_of(p2: Seq<Seq<char>>, p: Seq<Seq<char>>) -> bool {
    p2.len() <= p.len() && p2 == p.take(p2.len() as int)
}

/// The hierarchical, hive-addressed key/value store, modeled as the keys that
/// exist, the values recorded so far, and the roots this process may write
/// under. The store holds at most one value per (root, path, name); absence
/// is a state of its own, distinct from value zero.
pub struct Store {
    writable: Vec<Root>,
    keys: Vec<KeyRecord>,
    values: Vec<ValueRecord>,
}

impl Store {
    /// Whether this process may write under `r`.
    pub closed spec fn is_writable(self, r: Root) -> bool {
        self.writable@.contains(r)
    }

    /// Whether the key addressed by `p` exists under `r`. The empty path is
    /// the root itself, which always exists.
    pub closed spec fn key_exists(self, r: Root, p: Seq<Seq<char>>) -> bool {
        p.len() == 0 || exists|i: int|
            0 <= i < self.keys@.len() && #[trigger] key_rec_matches(self.keys@[i], r, p)
    }

    /// The value the store holds at (r, p, n), or `None` where the address
    /// holds nothing.
    pub closed spec fn value_of(self, r: Root, p: Seq<Seq<char>>, n: Seq<char>) -> Option<
        StoredValue,
    > {
        seq_value_of(self.values@, r, p, n)
    }

    /// An empty store: no key besides the roots themselves, no value, and
    /// exactly the given roots writable.
    pub fn new(writable: Vec<Root>) -> (s: Store)
        ensures
            forall|r: Root| #[trigger] s.is_writable(r) <==> writable@.contains(r),
            forall|r: Root, p: Seq<Seq<char>>| #[trigger] s.key_exists(r, p) <==> p.len() == 0,
            forall|r: Root, p: Seq<Seq<char>>, n: Seq<char>| #[trigger] s.value_of(r, p, n) is None,
    {
        Store { writable, keys: Vec::new(), values: Vec::new() }
    }

    /// Whether some key record spells (root, path); the exec side of
    /// `key_exists` for a non-empty path.
    fn has_key_record(&self, root: Root, path: &Vec<String>) -> (found: bool)
        ensures
            found == exists|i: int|
                0 <= i < self.keys@.len() && #[trigger] key_rec_matches(
                    self.keys@[i],
                    root,
                    path.deep_view(),
                ),
    {
        let n = self.keys.len();
        for i in 0..n
            invariant
                n == self.keys@.len(),
                forall|j: int|
                    0 <= j < i ==> !#[trigger] key_rec_matches(
                        self.keys@[j],
                        root,
                        path.deep_view(),
                    ),
        {
            if self.keys[i].root == root && path_eq(&self.keys[i].path, path) {
                assert(key_rec_matches(self.keys@[i as int], root, path.deep_view()));
                return true;
            }
        }
        false
    }

    /// Whether the key addressed by `path` exists under `root`; the empty
    /// path addresses the root itself, which always exists.
    pub fn contains_path(&self, root: Root, path: &Vec<String>) -> (found: bool)
        ensures
            found == self.key_exists(root, path.deep_view()),
    {
        if path.len() == 0 {
            true
        } else {
            let found = self.has_key_record(root, path);
            assert(path.deep_view().len() == path@.len());
            found
        }
    }

    /// The latest value recorded at (root, path, name), scanning the records
    /// from newest to oldest.
    fn find_value(&self, root: Root, path: &Vec<String>, name: &String) -> (r: Option<StoredValue>)
        ensures
            r == self.value_of(root, path.deep_view(), name@),
    {
        let ghost p = path.deep_view();
        let ghost n = name@;
        let mut i = self.values.len();
        assert(self.values@.take(i as int) =~= self.values@);
        while i > 0
            invariant
                i <= self.values@.len(),
                seq_value_of(self.values@, root, p, n) == seq_value_of(
                    self.values@.take(i as int),
                    root,
                    p,
                    n,
                ),
                p == path.deep_view(),
                n == name@,
            decreases i,
        {
            i = i - 1;
            let rec = &self.values[i];
            let ghost taken = self.values@.take(i + 1);
            assert(taken.last() == self.values@[i as int]);
            assert(taken.drop_last() =~= self.values@.take(i as int));
            if rec.root == root && path_eq(&rec.path, path) && string_eq(&rec.name, name) {
                assert(rec_matches(self.values@[i as int], root, p, n));
                return Some(rec.value);
            }
            assert(!rec_matches(self.values@[i as int], root, p, n));
        }
        assert(self.values@.take(0).len() == 0);
        None
    }

    /// Reads the 32-bit integer named `name` at `path` under `root`. Opens
    /// the path read-only: nothing is created on a read, and the store is
    /// left unmodified. Fails with `PathNotFound` where the path does not
    /// exist, with `ValueNotFound` where the path exists but holds nothing
    /// under the name, and with `TypeMismatch` where the value there is not a
    /// 32-bit integer.
    pub fn read(&self, root: Root, path: &Vec<String>, name: &String) -> (r: Result<
        u32,
        StoreError,
    >)
        ensures
            match r {
                Ok(v) => self.key_exists(root, path.deep_view()) && self.value_of(
                    root,
                    path.deep_view(),
                    name@,
                ) == Some(StoredValue::Dword(v)),
                Err(e) => match e {
                    StoreError::PathNotFound => !self.key_exists(root, path.deep_view()),
                    StoreError::ValueNotFound => self.key_exists(root, path.deep_view())
                        && self.value_of(root, path.deep_view(), name@) is None,
                    StoreError::TypeMismatch => self.key_exists(root, path.deep_view())
                        && self.value_of(root, path.deep_view(), name@) == Some(StoredValue::Other),
                    _ => false,
                },
            },
    {
        if !self.contains_path(root, path) {
            return Err(StoreError::PathNotFound);
        }
        match self.find_value(root, path, name) {
            None => Err(StoreError::ValueNotFound),
            Some(StoredValue::Dword(v)) => Ok(v),
            Some(StoredValue::Other) => Err(StoreError::TypeMismatch),
        }
    }

    /// Records `value` at (root, path, name): the common body of the typed
    /// write and of the foreign, non-integer write.
    fn put(&mut self, root: Root, path: &Vec<String>, name: &String, value: StoredValue) -> (r:
        Result<(), StoreError>)
        ensures
            match r {
                Ok(()) => old(self).is_writable(root) && put_effect(
                    *old(self),
                    *final(self),
                    root,
                    path.deep_view(),
                    name@,
                    value,
                ),
                Err(e) => e matches StoreError::AccessDenied && !old(self).is_writable(root)
                    && *final(self) == *old(self),
            },
    {
        if !root_in(&self.writable, root) {
            return Err(StoreError::AccessDenied);
        }
        let ghost p = path.deep_view();
        let ghost n = name@;
        // Create the path and every missing intermediate key under the root.
        let mut prefix: Vec<String> = Vec::new();
        let mut k: usize = 0;
        assert(prefix.deep_view() =~= p.take(0));
        while k < path.len()
            invariant
                k <= path@.len(),
                p == path.deep_view(),
                p.len() == path@.len(),
                prefix@.len() == k as int,
                prefix.deep_view() == p.take(k as int),
                self.values == old(self).values,
                self.writable == old(self).writable,
                forall|r2: Root, p2: Seq<Seq<char>>|
                    #![trigger self.key_exists(r2, p2)]
                    #![trigger old(self).key_exists(r2, p2)]
                    self.key_exists(r2, p2) <==> (old(self).key_exists(r2, p2) || (r2 == root && 1
                        <= p2.len() <= k && p2 == p.take(p2.len() as int))),
            decreases path@.len() - k,
        {
            let ghost old_prefix = prefix;
            prefix.push(path[k].clone());
            proof {
                assert(prefix@[k as int]@ == path@[k as int]@);
                assert forall|j: int| 0 <= j < k + 1 implies prefix.deep_view()[j] == p.take(
                    k + 1,
                )[j] by {
                    if j < k {
                        assert(prefix@[j] == old_prefix@[j]);
                        assert(old_prefix.deep_view()[j] == p.take(k as int)[j]);
                    }
                }
                assert(prefix.deep_view() =~= p.take(k + 1));
            }
            let seg_path = clone_path(&prefix);
            let ghost prev = *self;
            self.keys.push(KeyRecord { root: root, path: seg_path });
            proof {
                let last = prev.keys@.len() as int;
                assert(self.keys@ == prev.keys@.push(self.keys@[last]));
                assert(self.keys@[last].path.deep_view() == p.take(k + 1));
                assert forall|r2: Root, p2: Seq<Seq<char>>|
                    #[trigger] self.key_exists(r2, p2) <==> (prev.key_exists(r2, p2) || (r2 == root
                        && p2 == p.take(k + 1))) by {
                    if p2.len() > 0 {
                        if prev.key_exists(r2, p2) {
                            let i = choose|i: int|
                                0 <= i < prev.keys@.len() && key_rec_matches(prev.keys@[i], r2, p2);
                            assert(key_rec_matches(self.keys@[i], r2, p2));
                        }
                        if r2 == root && p2 == p.take(k + 1) {
                            assert(key_rec_matches(self.keys@[last], r2, p2));
                        }
                        if self.key_exists(r2, p2) {
                            let i = choose|i: int|
                                0 <= i < self.keys@.len() && key_rec_matches(self.keys@[i], r2, p2);
                            if i < last {
                                assert(key_rec_matches(prev.keys@[i], r2, p2));
                            } else {
                                assert(p2 == p.take(k + 1));
                            }
                        }
                    }
                }
                assert(p.take(k + 1).len() == k + 1);
            }
            k = k + 1;
        }
        assert(p.take(p.len() as int) =~= p);
        // Record the value; the latest record at an address shadows all
        // earlier ones there.
        let rec_path = clone_path(path);
        let ghost mid = *self;
        self.values.push(ValueRecord { root: root, path: rec_path, name: name.clone(), value });
        proof {
            let last = mid.values@.len() as int;
            let rec = self.values@[last];
            assert(self.values@ == mid.values@.push(rec));
            assert(rec_matches(rec, root, p, n));
            lemma_seq_value_of_push(mid.values@, rec, root, p, n);
            assert forall|r2: Root, p2: Seq<Seq<char>>, n2: Seq<char>|
                !(r2 == root && p2 == p && n2 == n) implies #[trigger] self.value_of(r2, p2, n2)
                == old(self).value_of(r2, p2, n2) by {
                assert(!rec_matches(rec, r2, p2, n2));
                lemma_seq_value_of_push(mid.values@, rec, r2, p2, n2);
            }
            assert(self.keys@ == mid.keys@);
            assert forall|r2: Root, p2: Seq<Seq<char>>|
                #[trigger] self.key_exists(r2, p2) == mid.key_exists(r2, p2) by {
                if p2.len() > 0 {
                    if mid.key_exists(r2, p2) {
                        let i = choose|i: int|
                            0 <= i < mid.keys@.len() && key_rec_matches(mid.keys@[i], r2, p2);
                        assert(key_rec_matches(self.keys@[i], r2, p2));
                    }
                    if self.key_exists(r2, p2) {
                        let i = choose|i: int|
                            0 <= i < self.keys@.len() && key_rec_matches(self.keys@[i], r2, p2);
                        assert(key_rec_matches(mid.keys@[i], r2, p2));
                    }
                }
            }
            assert(is_prefix_of(p, p));
        }
        Ok(())
    }

    /// Writes the 32-bit integer `data` under the name `name` at `path` under
    /// `root`, creating the path and all missing intermediate keys first, and
    /// overwriting any prior value and any prior type at that address. Fails
    /// with `AccessDenied`, and changes nothing, exactly where the process
    /// may not write under `root`. The write carries no notification: a
    /// caller that wants the shell told must broadcast separately.
    pub fn write(&mut self, root: Root, path: &Vec<String>, name: &String, data: u32) -> (r: Result<
        (),
        StoreError,
    >)
        ensures
            match r {
                Ok(()) => old(self).is_writable(root) && write_effect(
                    *old(self),
                    *final(self),
                    root,
                    path.deep_view(),
                    name@,
                    data,
                ),
                Err(e) => e matches StoreError::AccessDenied && !old(self).is_writable(root)
                    && *final(self) == *old(self),
            },
    {
        self.put(root, path, name, StoredValue::Dword(data))
    }

    /// Records a value of some non-integer type at (root, path, name), as an
    /// outside tool may leave one; a typed read of that address then fails
    /// with `TypeMismatch`. Same creation, overwrite and permission behavior
    /// as `write`.
    pub fn write_other(&mut self, root: Root, path: &Vec<String>, name: &String) -> (r: Result<
        (),
        StoreError,
    >)
        ensures
            match r {
                Ok(()) => old(self).is_writable(root) && put_effect(
                    *old(self),
                    *final(self),
                    root,
                    path.deep_view(),
                    name@,
                    StoredValue::Other,
                ),
                Err(e) => e matches StoreError::AccessDenied && !old(self).is_writable(root)
                    && *final(self) == *old(self),
            },
    {
        self.put(root, path, name, StoredValue::Other)
    }
}

/// What a successful write of `v` at (root, p, n) does to a store: that
/// address now holds exactly `v`; every other address holds what it held
/// before; the path and every key on the way down to it now exist and no
/// other key appears; which roots are writable is unchanged.
pub open spec fn put_effect(
    pre: Store,
    post: Store,
    root: Root,
    p: Seq<Seq<char>>,
    n: Seq<char>,
    v: StoredValue,
) -> bool {
    &&& post.value_of(root, p, n) == Some(v)
    &&& forall|r2: Root, p2: Seq<Seq<char>>, n2: Seq<char>|
        !(r2 == root && p2 == p && n2 == n) ==> #[trigger] post.value_of(r2, p2, n2)
            == pre.value_of(r2, p2, n2)
    &&& forall|r2: Root, p2: Seq<Seq<char>>|
        #![trigger post.key_exists(r2, p2)]
        #![trigger pre.key_exists(r2, p2)]
        post.key_exists(r2, p2) <==> (pre.key_exists(r2, p2) || (r2 == root && is_prefix_of(
            p2,
            p,
        )))
    &&& forall|r2: Root| #[trigger] post.is_writable(r2) == pre.is_writable(r2)
}

/// `put_effect` for a 32-bit integer write: what `Store::write` ensures on
/// success.
pub open spec fn write_effect(
    pre: Store,
    post: Store,
    root: Root,
    p: Seq<Seq<char>>,
    n: Seq<char>,
    data: u32,
) -> bool {
    put_effect(pre, post, root, p, n, StoredValue::Dword(data))
}

/// Appending one record changes the held value at exactly that record's
/// address.
proof fn lemma_seq_value_of_push(
    s: Seq<ValueRecord>,
    rec: ValueRecord,
    r: Root,
    p: Seq<Seq<char>>,
    n: Seq<char>,
)
    ensures
        seq_value_of(s.push(rec), r, p, n) == if rec_matches(rec, r, p, n) {
            Some(rec.value)
        } else {
            seq_value_of(s, r, p, n)
        },
{
    assert(s.push(rec).len() == s.len() + 1);
    assert(s.push(rec).last() == rec);
    assert(s.push(rec).drop_last() =~= s);
}

/// Law: write-then-read round trip. After a successful write of `v` at
/// (root, path, name) — any `v` a 32-bit integer can hold — the path exists
/// and the store holds exactly `Dword(v)` at that address: the two facts that
/// `Store::read`'s contract turns into the return of `Ok(v)` for that triple,
/// its error cases all being ruled out.
pub proof fn lemma_write_read_round_trip(
    pre: Store,
    post: Store,
    root: Root,
    path: Seq<Seq<char>>,
    name: Seq<char>,
    v: u32,
)
    requires
        write_effect(pre, post, root, path, name, v),
    ensures
        post.key_exists(root, path),
        post.value_of(root, path, name) == Some(StoredValue::Dword(v)),
{
    assert(path.take(path.len() as int) =~= path);
    assert(is_prefix_of(path, path));
}

/// Law: last writer wins. Two successive successful writes at the same
/// (root, path, name) leave only the second value readable at that address,
/// and leave every other address as it was before the first write — no merge,
/// no trace of the first value.
pub proof fn lemma_last_writer_wins(
    s0: Store,
    s1: Store,
    s2: Store,
    root: Root,
    path: Seq<Seq<char>>,
    name: Seq<char>,
    v1: u32,
    v2: u32,
)
    requires
        write_effect(s0, s1, root, path, name, v1),
        write_effect(s1, s2, root, path, name, v2),
    ensures
        s2.value_of(root, path, name) == Some(StoredValue::Dword(v2)),
        forall|r2: Root, p2: Seq<Seq<char>>, n2: Seq<char>|
            !(r2 == root && p2 == path && n2 == name) ==> #[trigger] s2.value_of(r2, p2, n2)
                == s0.value_of(r2, p2, n2),
{
}

/// Whether `r` is one of the roots in `v`.
fn root_in(v: &Vec<Root>, r: Root) -> (found: bool)
    ensures
        found == v@.contains(r),
{
    let n = v.len();
    for i in 0..n
        invariant
            n == v@.len(),
            forall|j: int| 0 <= j < i ==> v@[j] != r,
    {
        if v[i] == r {
            return true;
        }
    }
    assert(!v@.contains(r));
    false
}

/// Whether two strings hold the same characters.
fn string_eq(a: &String, b: &String) -> (r: bool)
    ensures
        r == (a@ == b@),
{
    a.eq(b)
}

/// Whether two paths hold the same segments.
fn path_eq(a: &Vec<String>, b: &Vec<String>) -> (r: bool)
    ensures
        r == (a.deep_view() == b.deep_view()),
{
    if a.len() != b.len() {
        assert(a.deep_view().len() != b.deep_view().len());
        return false;
    }
    let n = a.len();
    for i in 0..n
        invariant
            n == a@.len(),
            n == b@.len(),
            forall|j: int| 0 <= j < i ==> a.deep_view()[j] == b.deep_view()[j],
    {
        if !string_eq(&a[i], &b[i]) {
            assert(a.deep_view()[i as int] != b.deep_view()[i as int]);
            return false;
        }
    }
    assert(a.deep_view() =~= b.deep_view());
    true
}

/// A copy of a path with the same segments.
fn clone_path(p: &Vec<String>) -> (r: Vec<String>)
    ensures
        r.deep_view() == p.deep_view(),
{
    let mut r: Vec<String> = Vec::new();
    let n = p.len();
    for i in 0..n
        invariant
            n == p@.len(),
            r@.len() == i,
            forall|j: int| 0 <= j < i ==> r.deep_view()[j] == p.deep_view()[j],
    {
        r.push(p[i].clone());
    }
    assert(r.deep_view() =~= p.deep_view());
    r
}

} // verus!

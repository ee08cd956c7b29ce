use vstd::prelude::*;
use vstd::string::StrSliceExecFns;
use vstd::string::StringExecFns;

verus! {

/// The hash of a string: a polynomial over its characters, kept below a fixed
/// prime so the arithmetic stays exact.
pub open spec fn hash_chars(s: Seq<char>) -> nat
    decreases s.len(),
{
    if s.len() == 0 {
        0
    } else {
        (hash_chars(s.drop_last()) * 31 + (s.last() as u32) as nat) % 1000000007
    }
}

/// Computes the string hash.
pub fn hash_string(s: &str) -> (r: u64)
    ensures
        r as nat == hash_chars(s@),
        r < 1000000007,
{
    let len = s.unicode_len();
    let mut h: u64 = 0;
    let mut i: usize = 0;
    proof {
        assert(s@.take(0) =~= Seq::<char>::empty());
    }
    while i < len
        invariant
            i <= len,
            len == s@.len(),
            h as nat == hash_chars(s@.take(i as int)),
            h < 1000000007,
        decreases len - i,
    {
        let c = s.get_char(i);
        proof {
            assert(s@.take(i as int + 1).drop_last() =~= s@.take(i as int));
            assert(s@.take(i as int + 1).last() == s@[i as int]);
        }
        h = (h * 31 + (c as u32) as u64) % 1000000007;
        i = i + 1;
    }
    proof {
        assert(s@.take(len as int) =~= s@);
    }
    h
}

/// One key with its value.
#[derive(Debug)]
pub struct DictionaryNodeItem<T, U> {
    pub key: T,
    pub value: U,
}

/// One bucket: the items whose keys hash here, oldest first.
#[derive(Debug)]
pub struct DictionaryCell<T, U> {
    pub items: Vec<DictionaryNodeItem<T, U>>,
}

/// A hash table of buckets; lookups walk only the bucket a key hashes to.
pub struct Dictionary<T, U> {
    pub bucket_count: u64,
    pub buckets: Vec<DictionaryCell<T, U>>,
}

/// The value stored under `key`: the oldest entry of its bucket that carries
/// the key.
pub open spec fn first_match<U>(
    items: Seq<DictionaryNodeItem<String, U>>,
    key: Seq<char>,
) -> Option<U>
    decreases items.len(),
{
    if items.len() == 0 {
        None
    } else if items[0].key@ == key {
        Some(items[0].value)
    } else {
        first_match(items.skip(1), key)
    }
}

/// The bucket with the oldest entry under `key` taken out; a bucket without
/// the key is left as it is.
pub open spec fn remove_first<U>(
    items: Seq<DictionaryNodeItem<String, U>>,
    key: Seq<char>,
) -> Seq<DictionaryNodeItem<String, U>>
    decreases items.len(),
{
    if items.len() == 0 {
        items
    } else if items[0].key@ == key {
        items.skip(1)
    } else {
        seq![items[0]] + remove_first(items.skip(1), key)
    }
}

impl<T, U> Dictionary<T, U> {
    /// An empty dictionary with the default number of buckets.
    pub fn new() -> (r: Dictionary<T, U>)
        ensures
            r.well_formed(),
            r.bucket_count == 16,
            forall|b: int| 0 <= b < 16 ==> (#[trigger] r.buckets@[b]).items@.len() == 0,
    {
        Dictionary::new_with_capacity(16)
    }

    /// An empty dictionary with the asked-for number of buckets.
    pub fn new_with_capacity(capacity: u64) -> (r: Dictionary<T, U>)
        requires
            1 <= capacity <= usize::MAX,
        ensures
            r.well_formed(),
            r.bucket_count == capacity,
            forall|b: int| 0 <= b < capacity ==> (#[trigger] r.buckets@[b]).items@.len() == 0,
    {
        let mut v: Vec<DictionaryCell<T, U>> = Vec::new();
        let mut made: u64 = 0;
        while made < capacity
            invariant
                made <= capacity,
                v@.len() == made,
                forall|b: int| 0 <= b < made ==> (#[trigger] v@[b]).items@.len() == 0,
            decreases capacity - made,
        {
            v.push(DictionaryCell { items: Vec::new() });
            made = made + 1;
        }
        Dictionary { bucket_count: capacity, buckets: v }
    }

    /// The shape every operation keeps: at least one bucket, one cell per
    /// bucket index.
    pub open spec fn well_formed(&self) -> bool {
        &&& self.bucket_count >= 1
        &&& self.bucket_count <= usize::MAX
        &&& self.buckets@.len() == self.bucket_count
    }
}

impl<U: Copy> Dictionary<String, U> {
    /// Every key sits in the bucket its hash picks.
    pub open spec fn keys_placed(&self) -> bool {
        forall|b: int, k: int|
            #![trigger self.buckets@[b].items@[k]]
            0 <= b < self.buckets@.len() && 0 <= k < self.buckets@[b].items@.len()
                ==> hash_chars(self.buckets@[b].items@[k].key@) % (self.bucket_count as nat) == b
}

    /// The bucket a key belongs to.
    pub open spec fn bucket_of(&self, key: Seq<char>) -> int {
        (hash_chars(key) % (self.bucket_count as nat)) as int
    }

    /// What a lookup of `key` finds.
    pub open spec fn spec_get(&self, key: Seq<char>) -> Option<U> {
        first_match(self.buckets@[self.bucket_of(key)].items@, key)
    }

    /// Appends the key and value to the key's bucket. An earlier entry under
    /// the same key shadows the new one, exactly as before; a key not yet
    /// present is found afterwards with the new value.
    pub fn put(&mut self, key: &String, value: U)
        requires
            old(self).well_formed(),
            old(self).keys_placed(),
        ensures
            final(self).well_formed(),
            final(self).keys_placed(),
            final(self).bucket_count == old(self).bucket_count,
            final(self).spec_get(key@) == (if old(self).spec_get(key@) is Some {
                old(self).spec_get(key@)
            } else {
                Some(value)
            }),
            forall|other: Seq<char>|
                other != key@ ==> #[trigger] (final(self).spec_get(other)) == old(self).spec_get(
                    other,
                ),
    {
        let h = hash_string(key.as_str());
        let bucket_index = (h % self.bucket_count) as usize;
        let ghost pre_items = self.buckets@[bucket_index as int].items@;
        let item = DictionaryNodeItem { key: key.clone(), value };
        let ghost gitem = item;
        self.buckets[bucket_index].items.push(item);
        proof {
            assert(gitem.key@ == key@);
            assert(old(self).bucket_of(key@) == bucket_index as int);
            assert(self.buckets@[bucket_index as int].items@ == pre_items.push(gitem));
            assert(forall|b: int|
                0 <= b < self.buckets@.len() && b != bucket_index ==> #[trigger] self.buckets@[b]
                    == old(self).buckets@[b]);
            lemma_first_match_push(pre_items, key@, gitem);
            assert forall|other: Seq<char>| other != key@ implies first_match(
                pre_items.push(gitem),
                other,
            ) == first_match(pre_items, other) by {
                lemma_first_match_push_other(pre_items, other, gitem);
            }
            assert forall|b: int, k: int|
                #![trigger self.buckets@[b].items@[k]]
                0 <= b < self.buckets@.len() && 0 <= k
                    < self.buckets@[b].items@.len() implies hash_chars(
                self.buckets@[b].items@[k].key@,
            ) % (self.bucket_count as nat) == b by {
                if b == bucket_index as int {
                    if k < pre_items.len() {
                        assert(self.buckets@[b].items@[k] == old(self).buckets@[b].items@[k]);
                    } else {
                        assert(self.buckets@[b].items@[k] == gitem);
                    }
                } else {
                    assert(self.buckets@[b].items@[k] == old(self).buckets@[b].items@[k]);
                }
            }
            assert forall|other: Seq<char>| other != key@ implies #[trigger] (self.spec_get(
                other,
            )) == old(self).spec_get(other) by {
                if old(self).bucket_of(other) != old(self).bucket_of(key@) {
                    assert(self.buckets@[old(self).bucket_of(other)] == old(self).buckets@[old(
                        self,
                    ).bucket_of(other)]);
                } else {
                    assert(self.buckets@[old(self).bucket_of(other)].items@ == pre_items.push(
                        gitem,
                    ));
                }
            }
        }
    }

    /// Looks a key up in its bucket: the oldest value stored under it, or
    /// nothing when the key was never stored.
    pub fn get(&mut self, key: &String) -> (r: Option<U>)
        requires
            old(self).well_formed(),
        ensures
            *final(self) == *old(self),
            r == old(self).spec_get(key@),
    {
        let h = hash_string(key.as_str());
        let bucket_index = (h % self.bucket_count) as usize;
        let items = &self.buckets[bucket_index].items;
        let mut k: usize = 0;
        proof {
            assert(items@.skip(0) =~= items@);
            assert(old(self).bucket_of(key@) == bucket_index as int);
        }
        while k < items.len()
            invariant
                k <= items@.len(),
                first_match(items@, key@) == first_match(items@.skip(k as int), key@),
                items@ == old(self).buckets@[old(self).bucket_of(key@)].items@,
            decreases items@.len() - k,
        {
            proof {
                assert(items@.skip(k as int)[0] == items@[k as int]);
                assert(items@.skip(k as int).skip(1) =~= items@.skip(k as int + 1));
            }
            if items[k].key == *key {
                return Some(items[k].value);
            }
            k = k + 1;
        }
        proof {
            assert(items@.skip(items@.len() as int) =~= Seq::<
                DictionaryNodeItem<String, U>,
            >::empty());
        }
        None
    }

    /// Removes the oldest entry under the key from its bucket, if one is
    /// there; a later entry under the same key then becomes visible. The key's
    /// bucket afterwards is exactly the old bucket with that entry taken out,
    /// and every other bucket is untouched.
    pub fn delete(&mut self, key: &String)
        requires
            old(self).well_formed(),
            old(self).keys_placed(),
        ensures
            final(self).well_formed(),
            final(self).keys_placed(),
            final(self).bucket_count == old(self).bucket_count,
            final(self).buckets@[old(self).bucket_of(key@)].items@ == remove_first(
                old(self).buckets@[old(self).bucket_of(key@)].items@,
                key@,
            ),
            forall|b: int|
                0 <= b < old(self).buckets@.len() && b != old(self).bucket_of(key@)
                    ==> #[trigger] final(self).buckets@[b] == old(self).buckets@[b],
            old(self).spec_get(key@) is None ==> *final(self) == *old(self),
    {
        let h = hash_string(key.as_str());
        let bucket_index = (h % self.bucket_count) as usize;
        let mut found: Option<usize> = None;
        let items_len = self.buckets[bucket_index].items.len();
        let mut k: usize = 0;
        proof {
            assert(self.buckets@[bucket_index as int].items@.skip(0)
                =~= self.buckets@[bucket_index as int].items@);
            assert(old(self).bucket_of(key@) == bucket_index as int);
        }
        while k < items_len && found.is_none()
            invariant
                k <= items_len,
                *self == *old(self),
                bucket_index < self.buckets@.len(),
                bucket_index as int == old(self).bucket_of(key@),
                items_len == self.buckets@[bucket_index as int].items@.len(),
                found is None ==> first_match(
                    self.buckets@[bucket_index as int].items@,
                    key@,
                ) == first_match(self.buckets@[bucket_index as int].items@.skip(k as int), key@),
                found is None ==> forall|j: int|
                    0 <= j < k ==> (#[trigger] self.buckets@[bucket_index as int].items@[j]).key@
                        != key@,
                found is Some ==> found.unwrap() < items_len
                    && self.buckets@[bucket_index as int].items@[found.unwrap() as int].key@
                    == key@ && forall|j: int|
                    0 <= j < found.unwrap()
                        ==> (#[trigger] self.buckets@[bucket_index as int].items@[j]).key@ != key@,
            decreases items_len - k + (if found is None {
                1int
            } else {
                0int
            }),
        {
            let ghost items = self.buckets@[bucket_index as int].items@;
            proof {
                assert(items.skip(k as int)[0] == items[k as int]);
                assert(items.skip(k as int).skip(1) =~= items.skip(k as int + 1));
            }
            if self.buckets[bucket_index].items[k].key == *key {
                found = Some(k);
            } else {
                k = k + 1;
            }
        }
        match found {
            Some(at) => {
                proof {
                    if old(self).spec_get(key@) is None {
                        lemma_first_match_none(
                            old(self).buckets@[bucket_index as int].items@,
                            key@,
                        );
                    }
                    lemma_remove_first_at(
                        old(self).buckets@[bucket_index as int].items@,
                        key@,
                        at as int,
                    );
                }
                let _removed = self.buckets[bucket_index].items.remove(at);
                proof {
                    assert forall|b: int, j: int|
                        #![trigger self.buckets@[b].items@[j]]
                        0 <= b < self.buckets@.len() && 0 <= j
                            < self.buckets@[b].items@.len() implies hash_chars(
                        self.buckets@[b].items@[j].key@,
                    ) % (self.bucket_count as nat) == b by {
                        if b == bucket_index {
                            assert(self.buckets@[b].items@[j] == (if j < at {
                                old(self).buckets@[b].items@[j]
                            } else {
                                old(self).buckets@[b].items@[j + 1]
                            }));
                        }
                    }
                }
            },
            None => {
                proof {
                    assert(self.buckets@[bucket_index as int].items@.skip(
                        self.buckets@[bucket_index as int].items@.len() as int,
                    ) =~= Seq::<DictionaryNodeItem<String, U>>::empty());
                    assert(*final(self) == *old(self));
                    lemma_first_match_none(
                        old(self).buckets@[bucket_index as int].items@,
                        key@,
                    );
                    lemma_remove_first_absent(
                        old(self).buckets@[bucket_index as int].items@,
                        key@,
                    );
                }
            },
        }
    }
}

/// Appending an entry under one key never changes what another key finds.
proof fn lemma_first_match_push_other<U>(
    items: Seq<DictionaryNodeItem<String, U>>,
    key: Seq<char>,
    item: DictionaryNodeItem<String, U>,
)
    requires
        item.key@ != key,
    ensures
        first_match(items.push(item), key) == first_match(items, key),
    decreases items.len(),
{
    if items.len() == 0 {
        assert(items.push(item)[0] == item);
        assert(items.push(item).skip(1) =~= Seq::<DictionaryNodeItem<String, U>>::empty());
        assert(first_match(items.push(item), key) == first_match(
            items.push(item).skip(1),
            key,
        ));
        assert(first_match(items.push(item).skip(1), key) is None);
    } else {
        assert(items.push(item)[0] == items[0]);
        if items[0].key@ == key {
        } else {
            assert(items.push(item).skip(1) =~= items.skip(1).push(item));
            lemma_first_match_push_other(items.skip(1), key, item);
            assert(first_match(items.push(item), key) == first_match(
                items.skip(1).push(item),
                key,
            ));
        }
    }
}

/// Taking out the first entry under a key is taking out the entry at its
/// first match position.
proof fn lemma_remove_first_at<U>(items: Seq<DictionaryNodeItem<String, U>>, key: Seq<char>, at: int)
    requires
        0 <= at < items.len(),
        items[at].key@ == key,
        forall|j: int| 0 <= j < at ==> (#[trigger] items[j]).key@ != key,
    ensures
        remove_first(items, key) == items.remove(at),
    decreases at,
{
    if at == 0 {
        assert(remove_first(items, key) == items.skip(1));
        assert(items.remove(0) =~= items.skip(1));
    } else {
        assert(items.skip(1)[at - 1] == items[at]);
        assert(forall|j: int| 0 <= j < at - 1 ==> (#[trigger] items.skip(1)[j]) == items[j + 1]);
        lemma_remove_first_at(items.skip(1), key, at - 1);
        assert(remove_first(items, key) == seq![items[0]] + items.skip(1).remove(at - 1));
        assert(seq![items[0]] + items.skip(1).remove(at - 1) =~= items.remove(at));
    }
}

/// A bucket without the key is left exactly as it is.
proof fn lemma_remove_first_absent<U>(items: Seq<DictionaryNodeItem<String, U>>, key: Seq<char>)
    requires
        first_match(items, key) is None,
    ensures
        remove_first(items, key) == items,
    decreases items.len(),
{
    if items.len() > 0 {
        lemma_remove_first_absent(items.skip(1), key);
        assert(remove_first(items, key) =~= items);
    }
}

/// A key that no lookup finds stands in no entry of the bucket.
proof fn lemma_first_match_none<U>(items: Seq<DictionaryNodeItem<String, U>>, key: Seq<char>)
    requires
        first_match(items, key) is None,
    ensures
        forall|j: int| 0 <= j < items.len() ==> (#[trigger] items[j]).key@ != key,
    decreases items.len(),
{
    if items.len() > 0 {
        lemma_first_match_none(items.skip(1), key);
        assert forall|j: int| 0 <= j < items.len() implies (#[trigger] items[j]).key@ != key by {
            if j > 0 {
                assert(items.skip(1)[j - 1] == items[j]);
            }
        }
    }
}

/// A freshly appended entry is found exactly when no older entry under the
/// same key hides it.
proof fn lemma_first_match_push<U>(
    items: Seq<DictionaryNodeItem<String, U>>,
    key: Seq<char>,
    item: DictionaryNodeItem<String, U>,
)
    requires
        item.key@ == key,
    ensures
        first_match(items.push(item), key) == (if first_match(items, key) is Some {
            first_match(items, key)
        } else {
            Some(item.value)
        }),
    decreases items.len(),
{
    if items.len() == 0 {
        assert(items.push(item)[0] == item);
    } else {
        assert(items.push(item)[0] == items[0]);
        if items[0].key@ == key {
        } else {
            assert(items.push(item).skip(1) =~= items.skip(1).push(item));
            lemma_first_match_push(items.skip(1), key, item);
        }
    }
}

/// Values grouped under their keys, in first-appearance order.
pub struct MyCoolType<K, V>(pub Vec<(K, Vec<V>)>);

impl<V> MyCoolType<String, V> {
    /// Groups the pairs: each distinct key once, holding its values in the
    /// order they came.
    pub fn from_pairs(tuples: Vec<(String, V)>) -> (r: MyCoolType<String, V>)
        ensures
            forall|a: int, b: int|
                0 <= a < b < r.0@.len() ==> (#[trigger] r.0@[a]).0@ != (#[trigger] r.0@[b]).0@,
    {
        let mut grouped: Vec<(String, Vec<V>)> = Vec::new();
        let mut t = tuples;
        while t.len() > 0
            invariant
                forall|a: int, b: int|
                    0 <= a < b < grouped@.len() ==> (#[trigger] grouped@[a]).0@ != (
                    #[trigger] grouped@[b]).0@,
            decreases t@.len(),
        {
            let (k, v) = t.remove(0);
            let mut at: Option<usize> = None;
            let mut g: usize = 0;
            while g < grouped.len()
                invariant
                    g <= grouped@.len(),
                    at is None ==> forall|q: int|
                        0 <= q < g ==> (#[trigger] grouped@[q]).0@ != k@,
                    at is Some ==> at.unwrap() < grouped@.len() && grouped@[at.unwrap() as int].0@
                        == k@,
                decreases grouped@.len() - g + (if at is None {
                    1int
                } else {
                    0int
                }),
            {
                if at.is_none() && grouped[g].0 == k {
                    at = Some(g);
                }
                g = g + 1;
            }
            match at {
                Some(i) => {
                    let ghost pre = grouped@;
                    grouped[i].1.push(v);
                    proof {
                        assert(forall|q: int|
                            0 <= q < grouped@.len() ==> (#[trigger] grouped@[q]).0 == pre[q].0);
                    }
                },
                None => {
                    let ghost pre = grouped@;
                    grouped.push((k, vec![v]));
                    proof {
                        assert(forall|q: int|
                            0 <= q < pre.len() ==> (#[trigger] grouped@[q]) == pre[q]);
                    }
                },
            }
        }
        MyCoolType(grouped)
    }
}

/// A compound key: a number and a name.
#[derive(Debug, Eq, Hash, PartialEq)]
pub struct Complex {
    pub n: i32,
    pub s: String,
}

impl Complex {
    pub fn new(n: i32, s: &str) -> (r: Complex)
        ensures
            r.n == n,
            r.s@ == s@,
    {
        Complex { n, s: s.to_owned() }
    }
}

} // verus!

//! The records kept in the vault.
use crate::error::VaultError;
use crate::text::is_word;
use vstd::prelude::*;

verus! {

/// A stored secret and the time it was added, in seconds since the epoch.
#[derive(Debug, PartialEq, Eq)]
pub struct SecretEntry {
    pub value: String,
    pub created_at: u64,
}

impl View for SecretEntry {
    type V = (Seq<char>, u64);

    open spec fn view(&self) -> (Seq<char>, u64) {
        (self.value@, self.created_at)
    }
}

impl SecretEntry {
    /// A copy of this entry.
    pub fn duplicate(&self) -> (r: SecretEntry)
        ensures
            r@ == self@,
    {
        SecretEntry { value: self.value.clone(), created_at: self.created_at }
    }
}

/// The map that `keys` and `entries`, read in step, describe; a later
/// key shadows an earlier equal one.
pub open spec fn map_of(keys: Seq<String>, entries: Seq<SecretEntry>) -> Map<Seq<char>, (Seq<char>, u64)>
    decreases keys.len(),
{
    if keys.len() == 0 || entries.len() == 0 {
        Map::empty()
    } else {
        map_of(keys.drop_last(), entries.drop_last()).insert(keys.last()@, entries.last()@)
    }
}

proof fn lemma_map_of_step(keys: Seq<String>, entries: Seq<SecretEntry>, j: int)
    requires
        0 <= j < keys.len(),
        keys.len() == entries.len(),
    ensures
        map_of(keys.take(j + 1), entries.take(j + 1)) == map_of(keys.take(j), entries.take(j)).insert(
            keys[j]@,
            entries[j]@,
        ),
{
    assert(keys.take(j + 1).drop_last() =~= keys.take(j));
    assert(entries.take(j + 1).drop_last() =~= entries.take(j));
}

proof fn lemma_map_of_dom(keys: Seq<String>, entries: Seq<SecretEntry>, k: Seq<char>)
    requires
        keys.len() == entries.len(),
    ensures
        map_of(keys, entries).contains_key(k) <==> exists|i: int| 0 <= i < keys.len() && #[trigger] keys[i]@ == k,
    decreases keys.len(),
{
    if keys.len() > 0 {
        lemma_map_of_dom(keys.drop_last(), entries.drop_last(), k);
        if map_of(keys.drop_last(), entries.drop_last()).contains_key(k) {
            let i = choose|i: int| 0 <= i < keys.drop_last().len() && #[trigger] keys.drop_last()[i]@ == k;
            assert(keys[i]@ == k);
        }
        if exists|i: int| 0 <= i < keys.len() && #[trigger] keys[i]@ == k {
            let i = choose|i: int| 0 <= i < keys.len() && #[trigger] keys[i]@ == k;
            if i < keys.len() - 1 {
                assert(keys.drop_last()[i]@ == k);
            }
        }
    }
}

/// The secret map: each key names one entry.
pub struct VaultData {
    keys: Vec<String>,
    entries: Vec<SecretEntry>,
}

impl View for VaultData {
    type V = Map<Seq<char>, (Seq<char>, u64)>;

    closed spec fn view(&self) -> Self::V {
        map_of(self.keys@, self.entries@)
    }
}

impl VaultData {
    /// Keys and entries pair up, and no key occurs twice.
    pub closed spec fn wf(&self) -> bool {
        &&& self.keys@.len() == self.entries@.len()
        &&& forall|i: int, j: int|
            0 <= i < j < self.keys@.len() ==> #[trigger] self.keys@[i]@ != #[trigger] self.keys@[j]@
    }

    /// An empty map.
    pub fn new() -> (r: VaultData)
        ensures
            r.wf(),
            r@ == Map::<Seq<char>, (Seq<char>, u64)>::empty(),
    {
        VaultData { keys: Vec::new(), entries: Vec::new() }
    }

    /// Where `key` stands, if it is present.
    fn find(&self, key: &str) -> (r: Option<usize>)
        requires
            self.wf(),
        ensures
            match r {
                Some(i) => i < self.keys@.len() && self.keys@[i as int]@ == key@ && self@.contains_key(key@)
                    && self@[key@] == self.entries@[i as int]@,
                None => !self@.contains_key(key@) && forall|i: int|
                    0 <= i < self.keys@.len() ==> #[trigger] self.keys@[i]@ != key@,
            },
    {
        let n = self.keys.len();
        let mut found: Option<usize> = None;
        let mut j: usize = 0;
        while j < n
            invariant
                n == self.keys@.len(),
                self.wf(),
                j <= n,
                match found {
                    Some(i) => i < j && self.keys@[i as int]@ == key@ && map_of(
                        self.keys@.take(j as int),
                        self.entries@.take(j as int),
                    ).contains_key(key@) && map_of(self.keys@.take(j as int), self.entries@.take(j as int))[key@]
                        == self.entries@[i as int]@,
                    None => !map_of(self.keys@.take(j as int), self.entries@.take(j as int)).contains_key(key@)
                        && forall|i: int| 0 <= i < j ==> #[trigger] self.keys@[i]@ != key@,
                },
            decreases n - j,
        {
            proof {
                lemma_map_of_step(self.keys@, self.entries@, j as int);
            }
            if is_word(self.keys[j].as_str(), key) {
                found = Some(j);
            }
            j = j + 1;
        }
        assert(self.keys@.take(n as int) =~= self.keys@);
        assert(self.entries@.take(n as int) =~= self.entries@);
        found
    }

    /// Whether `key` is present.
    pub fn contains_key(&self, key: &str) -> (r: bool)
        requires
            self.wf(),
        ensures
            r == self@.contains_key(key@),
    {
        self.find(key).is_some()
    }

    /// The entry under `key`, if any.
    pub fn get(&self, key: &str) -> (r: Option<&SecretEntry>)
        requires
            self.wf(),
        ensures
            match r {
                Some(e) => self@.contains_key(key@) && self@[key@] == e@,
                None => !self@.contains_key(key@),
            },
    {
        match self.find(key) {
            Some(i) => Some(&self.entries[i]),
            None => None,
        }
    }

    /// Whether the map holds no entry.
    pub fn is_empty(&self) -> (r: bool)
        requires
            self.wf(),
        ensures
            r == (self@.dom() == Set::<Seq<char>>::empty()),
    {
        proof {
            if self.keys@.len() > 0 {
                lemma_map_of_dom(self.keys@, self.entries@, self.keys@[0]@);
                assert(self@.dom().contains(self.keys@[0]@));
            } else {
                assert(self@.dom() =~= Set::<Seq<char>>::empty());
            }
        }
        self.keys.len() == 0
    }

    /// Adds `entry` under a key that is not yet present; a present key is
    /// refused and the map is left as it was.
    pub fn insert_new(&mut self, key: String, entry: SecretEntry) -> (r: Result<(), VaultError>)
        requires
            old(self).wf(),
        ensures
            final(self).wf(),
            old(self)@.contains_key(key@) ==> r == Err::<(), VaultError>(VaultError::DuplicateKey)
                && final(self)@ == old(self)@,
            !old(self)@.contains_key(key@) ==> r is Ok && final(self)@ == old(self)@.insert(key@, entry@),
    {
        if self.contains_key(key.as_str()) {
            return Err(VaultError::DuplicateKey);
        }
        proof {
            lemma_map_of_dom(self.keys@, self.entries@, key@);
        }
        let ghost k0 = self.keys@;
        let ghost e0 = self.entries@;
        self.keys.push(key);
        self.entries.push(entry);
        assert(self.keys@.drop_last() =~= k0);
        assert(self.entries@.drop_last() =~= e0);
        Ok(())
    }

    /// Takes the entry under `key` out of the map; an absent key is
    /// reported and the map is left as it was.
    pub fn remove(&mut self, key: &str) -> (r: Result<SecretEntry, VaultError>)
        requires
            old(self).wf(),
        ensures
            final(self).wf(),
            !old(self)@.contains_key(key@) ==> r == Err::<SecretEntry, VaultError>(VaultError::MissingKey)
                && final(self)@ == old(self)@,
            old(self)@.contains_key(key@) ==> r is Ok && r->Ok_0@ == old(self)@[key@] && final(self)@
                == old(self)@.remove(key@),
    {
        let idx = match self.find(key) {
            Some(i) => i,
            None => return Err(VaultError::MissingKey),
        };
        let ghost old_keys = self.keys@;
        let ghost old_entries = self.entries@;
        let ghost m = self@;
        let n = self.keys.len();
        let mut keys: Vec<String> = Vec::new();
        let mut entries: Vec<SecretEntry> = Vec::new();
        let mut j: usize = 0;
        while j < n
            invariant
                n == old_keys.len(),
                n == old_entries.len(),
                old_keys == self.keys@,
                old_entries == self.entries@,
                self.wf(),
                j <= n,
                idx < n,
                old_keys[idx as int]@ == key@,
                keys@.len() == entries@.len(),
                map_of(keys@, entries@) == map_of(old_keys.take(j as int), old_entries.take(j as int)).remove(key@),
                forall|a: int, b: int|
                    0 <= a < b < keys@.len() ==> #[trigger] keys@[a]@ != #[trigger] keys@[b]@,
                forall|a: int|
                    0 <= a < keys@.len() ==> exists|i: int| 0 <= i < j && #[trigger] old_keys[i]@ == (#[trigger] keys@[a])@,
            decreases n - j,
        {
            proof {
                lemma_map_of_step(old_keys, old_entries, j as int);
            }
            if j != idx {
                assert(old_keys[j as int]@ != key@) by {
                    if j < idx {
                        assert(old_keys[j as int]@ != old_keys[idx as int]@);
                    } else {
                        assert(old_keys[idx as int]@ != old_keys[j as int]@);
                    }
                }
                let ghost kb = keys@;
                let ghost eb = entries@;
                keys.push(self.keys[j].clone());
                entries.push(self.entries[j].duplicate());
                assert(keys@.drop_last() =~= kb);
                assert(entries@.drop_last() =~= eb);
                assert(map_of(keys@, entries@) =~= map_of(old_keys.take(j + 1), old_entries.take(j + 1)).remove(key@));
                assert forall|a: int, b: int| 0 <= a < b < keys@.len() implies #[trigger] keys@[a]@ != #[trigger] keys@[b]@ by {
                    if b == keys@.len() - 1 {
                        let i = choose|i: int| 0 <= i < j && #[trigger] old_keys[i]@ == keys@[a]@;
                        assert(old_keys[i]@ != old_keys[j as int]@);
                    }
                }
                assert forall|a: int| 0 <= a < keys@.len() implies exists|i: int| 0 <= i < j + 1 && #[trigger] old_keys[i]@ == (#[trigger] keys@[a])@ by {
                    if a == keys@.len() - 1 {
                        assert(old_keys[j as int]@ == keys@[a]@);
                    } else {
                        assert(keys@[a] == kb[a]);
                    }
                }
            } else {
                assert(old_keys[j as int]@ == key@);
                assert(map_of(keys@, entries@) =~= map_of(old_keys.take(j + 1), old_entries.take(j + 1)).remove(key@));
            }
            j = j + 1;
        }
        assert(old_keys.take(n as int) =~= old_keys);
        assert(old_entries.take(n as int) =~= old_entries);
        let removed = self.entries[idx].duplicate();
        self.keys = keys;
        self.entries = entries;
        Ok(removed)
    }

    /// The keys present, each once, in no meaningful order.
    pub fn keys(&self) -> (r: Vec<String>)
        requires
            self.wf(),
        ensures
            forall|a: int, b: int| 0 <= a < b < r@.len() ==> #[trigger] r@[a]@ != #[trigger] r@[b]@,
            forall|k: Seq<char>| self@.contains_key(k) <==> exists|a: int| 0 <= a < r@.len() && #[trigger] r@[a]@ == k,
    {
        let r = self.keys.clone();
        proof {
            assert forall|k: Seq<char>| self@.contains_key(k) <==> exists|a: int| 0 <= a < r@.len() && #[trigger] r@[a]@ == k by {
                lemma_map_of_dom(self.keys@, self.entries@, k);
                if self@.contains_key(k) {
                    let i = choose|i: int| 0 <= i < self.keys@.len() && #[trigger] self.keys@[i]@ == k;
                    assert(r@[i]@ == k);
                }
                if exists|a: int| 0 <= a < r@.len() && #[trigger] r@[a]@ == k {
                    let a = choose|a: int| 0 <= a < r@.len() && #[trigger] r@[a]@ == k;
                    assert(self.keys@[a]@ == k);
                }
            }
        }
        r
    }
}

} // verus!

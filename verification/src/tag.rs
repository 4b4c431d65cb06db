use vstd::prelude::*;
use vstd::string::StringExecFns;
use crate::text::{starts_with, str_eq};

verus! {

/// The value under `key`, if the map holds the key.
pub open spec fn tag_get(tags: Map<Seq<char>, Seq<char>>, key: Seq<char>) -> Option<Seq<char>> {
    if tags.contains_key(key) {
        Some(tags[key])
    } else {
        None
    }
}

/// Whether the map holds `key` with exactly `value`.
pub open spec fn tag_is(tags: Map<Seq<char>, Seq<char>>, key: Seq<char>, value: Seq<char>) -> bool {
    tags.contains_key(key) && tags[key] == value
}

/// Whether the map holds `key` with one of `values`.
pub open spec fn tag_is_any(
    tags: Map<Seq<char>, Seq<char>>,
    key: Seq<char>,
    values: Seq<Seq<char>>,
) -> bool {
    tags.contains_key(key) && values.contains(tags[key])
}

/// A key path one segment longer: `base`, a colon, `suffix`.
pub open spec fn key_join(base: Seq<char>, suffix: Seq<char>) -> Seq<char> {
    base + seq![':'] + suffix
}

/// Whether `key` is `prefix` itself or lies below it in the key hierarchy.
pub open spec fn key_under(prefix: Seq<char>, key: Seq<char>) -> bool {
    key == prefix || (prefix + seq![':']).is_prefix_of(key)
}

/// The keys at or below `prefix`.
pub open spec fn keys_under(prefix: Seq<char>) -> Set<Seq<char>> {
    Set::new(|k: Seq<char>| key_under(prefix, k))
}

/// Whether any key of the map lies at or below `prefix`.
pub open spec fn has_subtree(tags: Map<Seq<char>, Seq<char>>, prefix: Seq<char>) -> bool {
    exists|k: Seq<char>| #[trigger] tags.contains_key(k) && key_under(prefix, k)
}

/// The character sequences of a list of strings.
pub open spec fn str_views(strs: Seq<&str>) -> Seq<Seq<char>> {
    strs.map_values(|s: &str| s@)
}

/// A colon-separated key path.
#[derive(Debug, PartialEq, Eq)]
pub struct TagKey {
    pub path: String,
}

impl View for TagKey {
    type V = Seq<char>;

    open spec fn view(&self) -> Seq<char> {
        self.path@
    }
}

impl TagKey {
    /// The key that `path` spells.
    pub fn from(path: &str) -> (key: TagKey)
        ensures
            key@ == path@,
    {
        TagKey { path: String::from_str(path) }
    }

    /// This key with one more segment.
    pub fn add(&self, suffix: &str) -> (key: TagKey)
        ensures
            key@ == key_join(self@, suffix@),
    {
        proof {
            reveal_strlit(":");
        }
        let path = self.path.clone().concat(":").concat(suffix);
        assert(path@ =~= key_join(self@, suffix@));
        TagKey { path }
    }

    /// The key as text.
    pub fn as_str(&self) -> (s: &str)
        ensures
            s@ == self@,
    {
        self.path.as_str()
    }
}

/// One key with its value.
#[derive(Debug, PartialEq, Eq)]
pub struct Tag {
    pub key: String,
    pub value: String,
}

/// A way's tags: each key at most once, each with a value.
#[derive(Debug, PartialEq, Eq)]
pub struct Tags {
    entries: Vec<Tag>,
}

spec fn unique_keys(entries: Seq<Tag>) -> bool {
    forall|i: int, j: int|
        0 <= i < j < entries.len() ==> (#[trigger] entries[i]).key@ != (#[trigger] entries[j]).key@
}

spec fn holds_key(entries: Seq<Tag>, key: Seq<char>) -> bool {
    exists|i: int| 0 <= i < entries.len() && (#[trigger] entries[i]).key@ == key
}

spec fn index_of_key(entries: Seq<Tag>, key: Seq<char>) -> int {
    choose|i: int| 0 <= i < entries.len() && (#[trigger] entries[i]).key@ == key
}

spec fn entries_map(entries: Seq<Tag>) -> Map<Seq<char>, Seq<char>> {
    Map::new(
        |k: Seq<char>| holds_key(entries, k),
        |k: Seq<char>| entries[index_of_key(entries, k)].value@,
    )
}

proof fn lemma_entry(entries: Seq<Tag>, i: int)
    requires
        unique_keys(entries),
        0 <= i < entries.len(),
    ensures
        entries_map(entries).contains_key(entries[i].key@),
        entries_map(entries)[entries[i].key@] == entries[i].value@,
{
    let k = entries[i].key@;
    assert(holds_key(entries, k));
    let j = index_of_key(entries, k);
    assert(j == i);
}

proof fn lemma_no_entry(entries: Seq<Tag>, key: Seq<char>)
    requires
        forall|i: int| 0 <= i < entries.len() ==> (#[trigger] entries[i]).key@ != key,
    ensures
        !entries_map(entries).contains_key(key),
{
}

proof fn lemma_held_key(entries: Seq<Tag>, key: Seq<char>) -> (i: int)
    requires
        entries_map(entries).contains_key(key),
    ensures
        0 <= i < entries.len(),
        entries[i].key@ == key,
{
    index_of_key(entries, key)
}

impl View for Tags {
    type V = Map<Seq<char>, Seq<char>>;

    closed spec fn view(&self) -> Map<Seq<char>, Seq<char>> {
        entries_map(self.entries@)
    }
}

impl Clone for Tag {
    fn clone(&self) -> (copy: Tag)
        ensures
            copy == *self,
    {
        Tag { key: self.key.clone(), value: self.value.clone() }
    }
}

impl Clone for Tags {
    fn clone(&self) -> (copy: Tags)
        ensures
            copy@ == self@,
    {
        proof {
            use_type_invariant(self);
        }
        let mut entries: Vec<Tag> = Vec::new();
        let mut i: usize = 0;
        while i < self.entries.len()
            invariant
                i <= self.entries.len(),
                entries@ == self.entries@.take(i as int),
            decreases self.entries.len() - i,
        {
            entries.push(self.entries[i].clone());
            assert(entries@ =~= self.entries@.take(i as int + 1));
            i += 1;
        }
        assert(entries@ =~= self.entries@);
        Tags { entries }
    }
}

impl Tags {
    #[verifier::type_invariant]
    spec fn well_formed(&self) -> bool {
        unique_keys(self.entries@)
    }

    /// A store without tags.
    pub fn new() -> (tags: Tags)
        ensures
            tags@ == Map::<Seq<char>, Seq<char>>::empty(),
    {
        let tags = Tags { entries: Vec::new() };
        assert(tags@ =~= Map::<Seq<char>, Seq<char>>::empty()) by {
            assert forall|k: Seq<char>| !tags@.contains_key(k) by {
                lemma_no_entry(tags.entries@, k);
            }
        }
        tags
    }

    /// Whether the store holds no tag.
    pub fn is_empty(&self) -> (empty: bool)
        ensures
            empty == (self@ == Map::<Seq<char>, Seq<char>>::empty()),
    {
        proof {
            use_type_invariant(self);
            if self.entries.len() > 0 {
                lemma_entry(self.entries@, 0);
            } else {
                assert forall|k: Seq<char>| !self@.contains_key(k) by {
                    lemma_no_entry(self.entries@, k);
                }
                assert(self@ =~= Map::<Seq<char>, Seq<char>>::empty());
            }
        }
        self.entries.len() == 0
    }

    /// All tags, each key once.
    pub fn entries(&self) -> (all: Vec<Tag>)
        ensures
            forall|i: int|
                0 <= i < all.len() ==> tag_get(self@, (#[trigger] all[i]).key@) == Some(
                    all[i].value@,
                ),
            forall|k: Seq<char>| #[trigger]
                self@.contains_key(k) ==> exists|i: int|
                    0 <= i < all.len() && (#[trigger] all[i]).key@ == k,
            forall|i: int, j: int|
                0 <= i < j < all.len() ==> (#[trigger] all[i]).key@ != (#[trigger] all[j]).key@,
    {
        proof {
            use_type_invariant(self);
        }
        let mut all: Vec<Tag> = Vec::new();
        let mut i: usize = 0;
        while i < self.entries.len()
            invariant
                i <= self.entries.len(),
                all@ == self.entries@.take(i as int),
            decreases self.entries.len() - i,
        {
            all.push(self.entries[i].clone());
            assert(all@ =~= self.entries@.take(i as int + 1));
            i += 1;
        }
        proof {
            assert(all@ =~= self.entries@);
            assert forall|i: int| 0 <= i < all.len() implies tag_get(
                self@,
                (#[trigger] all[i]).key@,
            ) == Some(all[i].value@) by {
                lemma_entry(self.entries@, i);
            }
            assert forall|k: Seq<char>| #[trigger] self@.contains_key(k) implies exists|i: int|
                0 <= i < all.len() && (#[trigger] all[i]).key@ == k by {
                let i = lemma_held_key(self.entries@, k);
                assert(all[i].key@ == k);
            }
        }
        all
    }

    fn position(&self, key: &str) -> (at: Option<usize>)
        ensures
            match at {
                Some(i) => i < self.entries.len() && self.entries[i as int].key@ == key@,
                None => forall|i: int|
                    0 <= i < self.entries.len() ==> (#[trigger] self.entries[i]).key@ != key@,
            },
    {
        let mut i: usize = 0;
        while i < self.entries.len()
            invariant
                i <= self.entries.len(),
                forall|j: int| 0 <= j < i ==> (#[trigger] self.entries[j]).key@ != key@,
            decreases self.entries.len() - i,
        {
            if str_eq(self.entries[i].key.as_str(), key) {
                return Some(i);
            }
            i += 1;
        }
        None
    }

    /// The value under `key`, if there is one.
    pub fn get(&self, key: &str) -> (value: Option<&str>)
        ensures
            match value {
                Some(v) => tag_get(self@, key@) == Some(v@),
                None => tag_get(self@, key@) is None,
            },
    {
        proof {
            use_type_invariant(self);
        }
        match self.position(key) {
            Some(i) => {
                proof {
                    lemma_entry(self.entries@, i as int);
                }
                Some(self.entries[i].value.as_str())
            },
            None => {
                proof {
                    lemma_no_entry(self.entries@, key@);
                }
                None
            },
        }
    }

    /// Whether `key` is present with exactly `value`.
    pub fn is(&self, key: &str, value: &str) -> (held: bool)
        ensures
            held == tag_is(self@, key@, value@),
    {
        match self.get(key) {
            Some(v) => str_eq(v, value),
            None => false,
        }
    }

    /// Whether `key` is present with one of `values`.
    pub fn is_any(&self, key: &str, values: &[&str]) -> (held: bool)
        ensures
            held == tag_is_any(self@, key@, str_views(values@)),
    {
        match self.get(key) {
            Some(v) => {
                let mut i: usize = 0;
                while i < values.len()
                    invariant
                        i <= values.len(),
                        tag_get(self@, key@) == Some(v@),
                        forall|j: int| 0 <= j < i ==> str_views(values@)[j] != v@,
                    decreases values.len() - i,
                {
                    if str_eq(values[i], v) {
                        assert(str_views(values@)[i as int] == v@);
                        return true;
                    }
                    i += 1;
                }
                false
            },
            None => false,
        }
    }

    /// Puts `value` under `key`, and hands back the value that it replaces.
    pub fn insert(&mut self, key: &str, value: &str) -> (replaced: Option<String>)
        ensures
            final(self)@ == old(self)@.insert(key@, value@),
            match replaced {
                Some(v) => tag_get(old(self)@, key@) == Some(v@),
                None => tag_get(old(self)@, key@) is None,
            },
    {
        proof {
            use_type_invariant(&*self);
        }
        let ghost before = self.entries@;
        let found = self.position(key);
        let mut entries: Vec<Tag> = Vec::new();
        let mut replaced: Option<String> = None;
        let mut n: usize = 0;
        while n < self.entries.len()
            invariant
                n <= self.entries.len(),
                before == self.entries@,
                entries.len() == n,
                forall|j: int|
                    0 <= j < n ==> #[trigger] entries[j] == (if found == Some(j as usize) {
                        Tag { key: before[j].key, value: entries[j].value }
                    } else {
                        before[j]
                    }),
                forall|j: int|
                    0 <= j < n && found == Some(j as usize) ==> (#[trigger] entries[j]).value@
                        == value@,
                match found {
                    Some(i) => if i < n {
                        replaced is Some && replaced->0@ == before[i as int].value@
                    } else {
                        replaced is None
                    },
                    None => replaced is None,
                },
            decreases self.entries.len() - n,
        {
            if found == Some(n) {
                replaced = Some(self.entries[n].value.clone());
                entries.push(Tag { key: self.entries[n].key.clone(), value: String::from_str(value) });
            } else {
                entries.push(self.entries[n].clone());
            }
            n += 1;
        }
        if found.is_none() {
            entries.push(Tag { key: String::from_str(key), value: String::from_str(value) });
        }
        proof {
            let after = entries@;
            let len = before.len() as int;
            assert(after.len() == if found is Some { len } else { len + 1 });
            assert forall|j: int| 0 <= j < len implies (#[trigger] after[j]).key@
                == before[j].key@ by {}
            let at = if found is Some { found->0 as int } else { len };
            assert(after[at].key@ == key@ && after[at].value@ == value@);
            if found is None {
                lemma_no_entry(before, key@);
            } else {
                lemma_entry(before, at);
            }
            assert(unique_keys(after)) by {
                assert forall|i: int, j: int| 0 <= i < j < after.len() implies (#[trigger] after[i]).key@
                    != (#[trigger] after[j]).key@ by {
                    if j < len {
                        assert(before[i].key@ != before[j].key@);
                    } else {
                        assert(before[i].key@ != key@);
                    }
                }
            }
            lemma_entry(after, at);
            assert forall|k: Seq<char>|
                entries_map(after).contains_key(k) <==> #[trigger] entries_map(before).insert(
                    key@,
                    value@,
                ).contains_key(k) by {
                if entries_map(after).contains_key(k) {
                    let j = lemma_held_key(after, k);
                    if j < len {
                        lemma_entry(before, j);
                    }
                }
                if entries_map(before).contains_key(k) {
                    let j = lemma_held_key(before, k);
                    lemma_entry(after, j);
                }
            }
            assert forall|k: Seq<char>| #[trigger]
                entries_map(after).contains_key(k) implies entries_map(after)[k] == entries_map(
                    before,
                ).insert(key@, value@)[k] by {
                let j = lemma_held_key(after, k);
                lemma_entry(after, j);
                if j < len && j != at {
                    lemma_entry(before, j);
                }
            }
            assert(entries_map(after) =~= entries_map(before).insert(key@, value@));
        }
        self.entries = entries;
        replaced
    }

    fn select(&self, keep: &Vec<bool>) -> (chosen: Tags)
        requires
            keep.len() == self.entries.len(),
        ensures
            forall|k: Seq<char>| #[trigger]
                chosen@.contains_key(k) <==> exists|i: int|
                    0 <= i < keep.len() && keep[i] && (#[trigger] self.entries[i]).key@ == k,
            forall|k: Seq<char>| #[trigger] chosen@.contains_key(k) ==> chosen@[k] == self@[k],
    {
        proof {
            use_type_invariant(self);
        }
        let mut entries: Vec<Tag> = Vec::new();
        let ghost mut origin: Seq<int> = Seq::empty();
        let mut i: usize = 0;
        while i < self.entries.len()
            invariant
                i <= self.entries.len(),
                keep.len() == self.entries.len(),
                unique_keys(self.entries@),
                origin.len() == entries.len(),
                forall|a: int| 0 <= a < origin.len() ==> 0 <= #[trigger] origin[a] < i,
                forall|a: int, b: int| 0 <= a < b < origin.len() ==> origin[a] < origin[b],
                forall|a: int| 0 <= a < origin.len() ==> keep[#[trigger] origin[a]],
                forall|a: int|
                    0 <= a < origin.len() ==> (#[trigger] entries[a]) == self.entries[origin[a]],
                forall|j: int|
                    0 <= j < i && keep[j] ==> exists|a: int|
                        0 <= a < origin.len() && #[trigger] origin[a] == j,
            decreases self.entries.len() - i,
        {
            if keep[i] {
                let ghost held = entries@;
                let tag = self.entries[i].clone();
                entries.push(tag);
                proof {
                    let ghost previous = origin;
                    origin = origin.push(i as int);
                    assert forall|a: int| 0 <= a < origin.len() implies (#[trigger] entries[a])
                        == self.entries[origin[a]] by {
                        if a < previous.len() {
                            assert(entries[a] == held[a]);
                            assert(origin[a] == previous[a]);
                        }
                    }
                    assert forall|j: int| 0 <= j <= i && keep[j] implies exists|a: int|
                        0 <= a < origin.len() && #[trigger] origin[a] == j by {
                        if j < i {
                            let a = choose|a: int|
                                0 <= a < previous.len() && #[trigger] previous[a] == j;
                            assert(origin[a] == j);
                        } else {
                            assert(origin[origin.len() - 1] == j);
                        }
                    }
                }
            }
            i += 1;
        }
        proof {
            let e = entries@;
            let s = self.entries@;
            assert(unique_keys(e)) by {
                assert forall|a: int, b: int| 0 <= a < b < e.len() implies (#[trigger] e[a]).key@
                    != (#[trigger] e[b]).key@ by {
                    assert(origin[a] < origin[b]);
                    assert(s[origin[a]].key@ != s[origin[b]].key@);
                }
            }
            assert forall|k: Seq<char>| #[trigger]
                entries_map(e).contains_key(k) <==> exists|i: int|
                    0 <= i < keep.len() && keep[i] && (#[trigger] s[i]).key@ == k by {
                if entries_map(e).contains_key(k) {
                    let a = lemma_held_key(e, k);
                    assert(keep[origin[a]] && s[origin[a]].key@ == k);
                }
                if exists|i: int| 0 <= i < keep.len() && keep[i] && (#[trigger] s[i]).key@ == k {
                    let j = choose|i: int|
                        0 <= i < keep.len() && keep[i] && (#[trigger] s[i]).key@ == k;
                    let a = choose|a: int| 0 <= a < origin.len() && #[trigger] origin[a] == j;
                    lemma_entry(e, a);
                }
            }
            assert forall|k: Seq<char>| #[trigger]
                entries_map(e).contains_key(k) implies entries_map(e)[k] == entries_map(s)[k] by {
                let a = lemma_held_key(e, k);
                lemma_entry(e, a);
                lemma_entry(s, origin[a]);
            }
        }
        Tags { entries }
    }

    /// The tags whose key is one of `keys`.
    pub fn subset(&self, keys: &[&str]) -> (chosen: Tags)
        ensures
            chosen@ == self@.restrict(str_views(keys@).to_set()),
    {
        proof {
            use_type_invariant(self);
        }
        let mut keep: Vec<bool> = Vec::new();
        let mut i: usize = 0;
        while i < self.entries.len()
            invariant
                i <= self.entries.len(),
                keep.len() == i,
                forall|j: int|
                    0 <= j < i ==> #[trigger] keep[j] == str_views(keys@).contains(
                        self.entries[j].key@,
                    ),
            decreases self.entries.len() - i,
        {
            let mut found = false;
            let mut n: usize = 0;
            while n < keys.len()
                invariant
                    n <= keys.len(),
                    i < self.entries.len(),
                    found == exists|m: int|
                        0 <= m < n && #[trigger] str_views(keys@)[m] == self.entries[i as int].key@,
                decreases keys.len() - n,
            {
                if str_eq(keys[n], self.entries[i].key.as_str()) {
                    assert(str_views(keys@)[n as int] == self.entries[i as int].key@);
                    found = true;
                }
                n += 1;
            }
            keep.push(found);
            i += 1;
        }
        let chosen = self.select(&keep);
        proof {
            let wanted = str_views(keys@).to_set();
            let s = self.entries@;
            assert forall|k: Seq<char>|
                chosen@.contains_key(k) <==> #[trigger] self@.restrict(wanted).contains_key(
                    k,
                ) by {
                if chosen@.contains_key(k) {
                    let j = choose|i: int|
                        0 <= i < keep.len() && keep[i] && (#[trigger] s[i]).key@ == k;
                    lemma_entry(s, j);
                }
                if self@.contains_key(k) && wanted.contains(k) {
                    let j = lemma_held_key(s, k);
                    assert(keep[j]);
                }
            }
            assert(chosen@ =~= self@.restrict(wanted));
        }
        chosen
    }

    /// The tags at or below `prefix` in the key hierarchy, if there are any.
    pub fn subtree(&self, prefix: &str) -> (below: Option<Tags>)
        ensures
            match below {
                Some(t) => has_subtree(self@, prefix@) && t@ == self@.restrict(
                    keys_under(prefix@),
                ),
                None => !has_subtree(self@, prefix@),
            },
    {
        proof {
            use_type_invariant(self);
            reveal_strlit(":");
        }
        let branch = String::from_str(prefix).concat(":");
        assert(branch@ =~= prefix@ + seq![':']);
        let mut keep: Vec<bool> = Vec::new();
        let mut any = false;
        let mut i: usize = 0;
        while i < self.entries.len()
            invariant
                i <= self.entries.len(),
                keep.len() == i,
                branch@ == prefix@ + seq![':'],
                forall|j: int|
                    0 <= j < i ==> #[trigger] keep[j] == key_under(prefix@, self.entries[j].key@),
                any == exists|j: int| 0 <= j < i && #[trigger] keep[j],
            decreases self.entries.len() - i,
        {
            let key = self.entries[i].key.as_str();
            let under = str_eq(key, prefix) || starts_with(key, branch.as_str());
            let ghost marked = keep@;
            keep.push(under);
            proof {
                if any {
                    let j = choose|j: int| 0 <= j < i && #[trigger] marked[j];
                    assert(keep[j]);
                }
                if exists|j: int| 0 <= j < i + 1 && #[trigger] keep[j] {
                    let j = choose|j: int| 0 <= j < i + 1 && #[trigger] keep[j];
                    if j < i {
                        assert(marked[j]);
                    }
                }
            }
            if under {
                assert(keep[i as int]);
                any = true;
            }
            i += 1;
        }
        let ghost s = self.entries@;
        if any {
            let chosen = self.select(&keep);
            proof {
                let j = choose|j: int| 0 <= j < keep.len() && #[trigger] keep[j];
                lemma_entry(s, j);
                assert(self@.contains_key(s[j].key@) && key_under(prefix@, s[j].key@));
                assert forall|k: Seq<char>|
                    chosen@.contains_key(k) <==> #[trigger] self@.restrict(
                        keys_under(prefix@),
                    ).contains_key(k) by {
                    if chosen@.contains_key(k) {
                        let j = choose|i: int|
                            0 <= i < keep.len() && keep[i] && (#[trigger] s[i]).key@ == k;
                        lemma_entry(s, j);
                    }
                    if self@.contains_key(k) && key_under(prefix@, k) {
                        let j = lemma_held_key(s, k);
                        assert(keep[j]);
                    }
                }
                assert(chosen@ =~= self@.restrict(keys_under(prefix@)));
            }
            Some(chosen)
        } else {
            proof {
                if has_subtree(self@, prefix@) {
                    let k = choose|k: Seq<char>| #[trigger]
                        self@.contains_key(k) && key_under(prefix@, k);
                    let j = lemma_held_key(s, k);
                    assert(keep[j]);
                }
            }
            None
        }
    }
}

} // verus!

//! A map from texts to texts, kept in the order of its keys.
use crate::text::chars_of;
use vstd::prelude::*;

verus! {

/// `a` comes before `b` in the order of texts: at the first place where they differ `a` has the
/// smaller character, or `a` is a proper beginning of `b`.
pub open spec fn before(a: Seq<char>, b: Seq<char>) -> bool
    decreases a.len(),
{
    if b.len() == 0 {
        false
    } else if a.len() == 0 {
        true
    } else if a[0] != b[0] {
        (a[0] as u32) < (b[0] as u32)
    } else {
        before(a.drop_first(), b.drop_first())
    }
}

/// Of two different texts exactly one comes before the other.
pub proof fn before_is_total(a: Seq<char>, b: Seq<char>)
    ensures
        a == b ==> !before(a, b),
        a != b ==> before(a, b) != before(b, a),
    decreases a.len(),
{
    if a.len() > 0 && b.len() > 0 {
        if a[0] == b[0] {
            before_is_total(a.drop_first(), b.drop_first());
            assert(a =~= seq![a[0]] + a.drop_first());
            assert(b =~= seq![b[0]] + b.drop_first());
        } else {
            vstd::utf8::char_u32_cast(a[0], a[0] as u32);
            vstd::utf8::char_u32_cast(b[0], b[0] as u32);
        }
    } else if a != b {
        assert(a.len() > 0 || b.len() > 0) by {
            if a.len() == 0 && b.len() == 0 {
                assert(a =~= b);
            }
        }
    }
}

/// The order of texts is transitive.
pub proof fn before_is_transitive(a: Seq<char>, b: Seq<char>, c: Seq<char>)
    requires
        before(a, b),
        before(b, c),
    ensures
        before(a, c),
    decreases a.len(),
{
    if a.len() > 0 && a[0] == b[0] && b[0] == c[0] {
        before_is_transitive(a.drop_first(), b.drop_first(), c.drop_first());
    }
}

/// Whether `a` comes before `b` in the order of texts.
pub fn is_before(a: &str, b: &str) -> (res: bool)
    ensures
        res == before(a@, b@),
{
    let x = chars_of(a);
    let y = chars_of(b);
    let mut i: usize = 0;
    assert(x@.skip(0) =~= x@);
    assert(y@.skip(0) =~= y@);
    while i < x.len() && i < y.len()
        invariant
            x@ == a@,
            y@ == b@,
            i <= x@.len(),
            i <= y@.len(),
            before(x@, y@) == before(x@.skip(i as int), y@.skip(i as int)),
        decreases x.len() - i,
    {
        let ghost xs = x@.skip(i as int);
        let ghost ys = y@.skip(i as int);
        assert(xs[0] == x@[i as int] && ys[0] == y@[i as int]);
        let c: char = x[i];
        let d: char = y[i];
        assert(c == xs[0] && d == ys[0]);
        if c != d {
            return (c as u32) < (d as u32);
        }
        assert(xs.drop_first() =~= x@.skip(i + 1));
        assert(ys.drop_first() =~= y@.skip(i + 1));
        i += 1;
    }
    i < y.len()
}

/// One key with its value.
#[derive(Debug, PartialEq, Eq, Hash)]
pub struct TextEntry {
    pub key: String,
    pub value: String,
}

/// The keys ascend.
pub open spec fn ascending(entries: Seq<TextEntry>) -> bool {
    forall|i: int, j: int|
        0 <= i < j < entries.len() ==> before(
            (#[trigger] entries[i]).key@,
            (#[trigger] entries[j]).key@,
        )
}

/// A map from texts to texts.
#[derive(Debug, PartialEq, Eq, Hash)]
pub struct TextMap {
    entries: Vec<TextEntry>,
}

impl TextMap {
    #[verifier::type_invariant]
    spec fn inv(self) -> bool {
        ascending(self.entries@)
    }

    /// The keys, ascending.
    pub closed spec fn keys(self) -> Seq<Seq<char>> {
        Seq::new(self.entries@.len(), |i: int| self.entries@[i].key@)
    }

    /// The values, in the order of the keys.
    pub closed spec fn values(self) -> Seq<Seq<char>> {
        Seq::new(self.entries@.len(), |i: int| self.entries@[i].value@)
    }
}

/// `keys[i]` has the value `values[i]`.
pub open spec fn pairs(keys: Seq<Seq<char>>, values: Seq<Seq<char>>) -> Map<Seq<char>, Seq<char>>
    decreases keys.len(),
{
    if keys.len() == 0 {
        Map::empty()
    } else {
        pairs(keys.drop_last(), values.drop_last()).insert(keys.last(), values.last())
    }
}

/// What [`pairs`] holds, where no key occurs twice.
pub proof fn pairs_spec(keys: Seq<Seq<char>>, values: Seq<Seq<char>>)
    requires
        keys.len() == values.len(),
        forall|i: int, j: int| 0 <= i < j < keys.len() ==> keys[i] != keys[j],
    ensures
        forall|i: int|
            0 <= i < keys.len() ==> pairs(keys, values).contains_key(#[trigger] keys[i]) && pairs(
                keys,
                values,
            )[keys[i]] == values[i],
        forall|k: Seq<char>| #[trigger] pairs(keys, values).contains_key(k) ==> keys.contains(k),
    decreases keys.len(),
{
    if keys.len() > 0 {
        let n = keys.len() - 1;
        pairs_spec(keys.drop_last(), values.drop_last());
        assert forall|i: int| 0 <= i < keys.len() implies pairs(keys, values).contains_key(
            #[trigger] keys[i],
        ) && pairs(keys, values)[keys[i]] == values[i] by {
            if i < n {
                assert(keys.drop_last()[i] == keys[i]);
                assert(keys[i] != keys[n]);
            }
        }
        assert forall|k: Seq<char>| #[trigger] pairs(
            keys,
            values,
        ).contains_key(k) implies keys.contains(k) by {
            if k == keys.last() {
                assert(keys[n] == k);
            } else {
                assert(pairs(keys.drop_last(), values.drop_last()).contains_key(k));
                assert(keys.drop_last().contains(k));
                let i = choose|i: int|
                    0 <= i < keys.drop_last().len() && keys.drop_last()[i] == k;
                assert(keys[i] == k);
            }
        }
    }
}

impl View for TextMap {
    type V = Map<Seq<char>, Seq<char>>;

    open spec fn view(&self) -> Map<Seq<char>, Seq<char>> {
        pairs(self.keys(), self.values())
    }
}

impl TextMap {
    /// No key occurs twice, and the view holds the entries.
    proof fn entries_are_pairs(&self)
        requires
            ascending(self.entries@),
        ensures
            forall|i: int|
                0 <= i < self.entries@.len() ==> self@.contains_key(
                    (#[trigger] self.entries@[i]).key@,
                ) && self@[self.entries@[i].key@] == self.entries@[i].value@,
            forall|k: Seq<char>| #[trigger]
                self@.contains_key(k) ==> exists|i: int|
                    0 <= i < self.entries@.len() && (#[trigger] self.entries@[i]).key@ == k,
    {
        assert forall|i: int, j: int| 0 <= i < j < self.keys().len() implies self.keys()[i]
            != self.keys()[j] by {
            assert(before(self.entries@[i].key@, self.entries@[j].key@));
            before_is_total(self.keys()[i], self.keys()[j]);
        }
        pairs_spec(self.keys(), self.values());
        assert forall|i: int| 0 <= i < self.entries@.len() implies self@.contains_key(
            (#[trigger] self.entries@[i]).key@,
        ) && self@[self.entries@[i].key@] == self.entries@[i].value@ by {
            assert(self.keys()[i] == self.entries@[i].key@);
        }
        assert forall|k: Seq<char>| #[trigger] self@.contains_key(k) implies exists|i: int|
            0 <= i < self.entries@.len() && (#[trigger] self.entries@[i]).key@ == k by {
            let i = choose|i: int| 0 <= i < self.keys().len() && self.keys()[i] == k;
            assert(self.entries@[i].key@ == k);
        }
    }

    /// The empty map.
    pub fn new() -> (res: TextMap)
        ensures
            res@ == Map::<Seq<char>, Seq<char>>::empty(),
            res.keys() == Seq::<Seq<char>>::empty(),
    {
        let res = TextMap { entries: Vec::new() };
        assert(res.keys() =~= Seq::empty());
        res
    }

    /// The number of keys. The keys ascend, and the map holds them and no others.
    pub fn len(&self) -> (res: usize)
        ensures
            res == self.keys().len(),
            res == self.values().len(),
            forall|i: int, j: int|
                0 <= i < j < res ==> before(#[trigger] self.keys()[i], #[trigger] self.keys()[j]),
            forall|k: Seq<char>| #[trigger] self@.contains_key(k) <==> self.keys().contains(k),
    {
        proof {
            use_type_invariant(self);
            self.entries_are_pairs();
            assert forall|i: int, j: int| 0 <= i < j < self.keys().len() implies before(
                #[trigger] self.keys()[i],
                #[trigger] self.keys()[j],
            ) by {
                assert(before(self.entries@[i].key@, self.entries@[j].key@));
            }
            assert forall|k: Seq<char>| #[trigger] self@.contains_key(k) <==> self.keys().contains(
                k,
            ) by {
                if self@.contains_key(k) {
                    let i = choose|i: int|
                        0 <= i < self.entries@.len() && (#[trigger] self.entries@[i]).key@ == k;
                    assert(self.keys()[i] == k);
                }
                if self.keys().contains(k) {
                    let i = choose|i: int| 0 <= i < self.keys().len() && self.keys()[i] == k;
                    assert(self.entries@[i].key@ == k);
                }
            }
        }
        self.entries.len()
    }

    /// Whether there is no key.
    pub fn is_empty(&self) -> (res: bool)
        ensures
            res == (self.keys().len() == 0),
    {
        self.entries.len() == 0
    }

    /// The key at place `i` in ascending order.
    pub fn key_at(&self, i: usize) -> (res: &str)
        requires
            i < self.keys().len(),
        ensures
            res@ == self.keys()[i as int],
    {
        self.entries[i].key.as_str()
    }

    /// The value of the key at place `i` in ascending order.
    pub fn value_at(&self, i: usize) -> (res: &str)
        requires
            i < self.values().len(),
        ensures
            res@ == self.values()[i as int],
    {
        self.entries[i].value.as_str()
    }

    /// The first place whose key does not come before `key`.
    fn place(&self, key: &str) -> (res: usize)
        requires
            ascending(self.entries@),
        ensures
            res <= self.entries@.len(),
            forall|j: int| 0 <= j < res ==> before((#[trigger] self.entries@[j]).key@, key@),
            forall|j: int|
                res <= j < self.entries@.len() ==> !before((#[trigger] self.entries@[j]).key@, key@),
    {
        let mut i: usize = 0;
        while i < self.entries.len()
            invariant
                i <= self.entries@.len(),
                ascending(self.entries@),
                forall|j: int| 0 <= j < i ==> before((#[trigger] self.entries@[j]).key@, key@),
            decreases self.entries.len() - i,
        {
            if !is_before(self.entries[i].key.as_str(), key) {
                assert forall|j: int| i <= j < self.entries@.len() implies !before(
                    (#[trigger] self.entries@[j]).key@,
                    key@,
                ) by {
                    if j > i && before(self.entries@[j].key@, key@) {
                        before_is_transitive(
                            self.entries@[i as int].key@,
                            self.entries@[j].key@,
                            key@,
                        );
                    }
                }
                return i;
            }
            i += 1;
        }
        i
    }

    /// The value of `key`.
    pub fn get(&self, key: &str) -> (res: Option<&str>)
        ensures
            res is Some <==> self@.contains_key(key@),
            res is Some ==> res->0@ == self@[key@],
    {
        proof {
            use_type_invariant(self);
            self.entries_are_pairs();
        }
        let i: usize = self.place(key);
        if i < self.entries.len() && *self.entries[i].key.as_str() == *key {
            return Some(self.entries[i].value.as_str());
        }
        proof {
            if self@.contains_key(key@) {
                let j = choose|j: int|
                    0 <= j < self.entries@.len() && (#[trigger] self.entries@[j]).key@ == key@;
                before_is_total(self.entries@[j].key@, key@);
                assert(j >= i);
                if j > i {
                    assert(before(self.entries@[i as int].key@, self.entries@[j].key@));
                }
            }
        }
        None
    }

    /// Sets the value of `key`.
    pub fn insert(&mut self, key: String, value: String)
        ensures
            final(self)@ == old(self)@.insert(key@, value@),
    {
        proof {
            use_type_invariant(&*self);
            self.entries_are_pairs();
        }
        let i: usize = self.place(key.as_str());
        let ghost old_entries = self.entries@;
        let ghost old_map = self@;
        let ghost k = key@;
        let ghost v = value@;
        let mut entries: Vec<TextEntry> = Vec::new();
        std::mem::swap(&mut self.entries, &mut entries);
        if i < entries.len() && *entries[i].key.as_str() == *key.as_str() {
            entries.set(i, TextEntry { key, value });
            proof {
                assert(ascending(entries@));
            }
        } else {
            entries.insert(i, TextEntry { key, value });
            proof {
                assert forall|a: int, b: int| 0 <= a < b < entries@.len() implies before(
                    (#[trigger] entries@[a]).key@,
                    (#[trigger] entries@[b]).key@,
                ) by {
                    if b == i {
                        assert(entries@[a] == old_entries[a]);
                    } else if a == i {
                        assert(entries@[b] == old_entries[b - 1]);
                        before_is_total(old_entries[b - 1].key@, k);
                        if old_entries[b - 1].key@ == k && b - 1 > i {
                            assert(before(old_entries[i as int].key@, old_entries[b - 1].key@));
                        }
                    } else {
                        let x = if a < i {
                            a
                        } else {
                            a - 1
                        };
                        let y = if b < i {
                            b
                        } else {
                            b - 1
                        };
                        assert(entries@[a] == old_entries[x] && entries@[b] == old_entries[y]);
                    }
                }
            }
        }
        let ghost new_entries = entries@;
        self.entries = entries;
        proof {
            self.entries_are_pairs();
            let new_map = old_map.insert(k, v);
            assert(new_entries[i as int].key@ == k && new_entries[i as int].value@ == v);
            assert forall|x: Seq<char>| self@.contains_key(x) == new_map.contains_key(x) by {
                if self@.contains_key(x) {
                    let j = choose|j: int|
                        0 <= j < new_entries.len() && (#[trigger] new_entries[j]).key@ == x;
                    if j != i {
                        let o = if new_entries.len() == old_entries.len() || j < i {
                            j
                        } else {
                            j - 1
                        };
                        assert(new_entries[j] == old_entries[o]);
                    }
                }
                if new_map.contains_key(x) && x != k {
                    let o = choose|o: int|
                        0 <= o < old_entries.len() && (#[trigger] old_entries[o]).key@ == x;
                    let j = if new_entries.len() == old_entries.len() || o < i {
                        o
                    } else {
                        o + 1
                    };
                    assert(new_entries[j] == old_entries[o]);
                }
            }
            assert forall|x: Seq<char>| self@.contains_key(x) implies self@[x] == new_map[x] by {
                let j = choose|j: int|
                    0 <= j < new_entries.len() && (#[trigger] new_entries[j]).key@ == x;
                if j != i {
                    let o = if new_entries.len() == old_entries.len() || j < i {
                        j
                    } else {
                        j - 1
                    };
                    assert(new_entries[j] == old_entries[o]);
                    if x == k {
                        before_is_total(new_entries[i as int].key@, new_entries[j].key@);
                        before_is_total(new_entries[j].key@, new_entries[i as int].key@);
                        assert(j < i ==> before(new_entries[j].key@, new_entries[i as int].key@));
                        assert(i < j ==> before(new_entries[i as int].key@, new_entries[j].key@));
                    }
                }
            }
            assert(self@ =~= new_map);
        }
    }
}

impl Clone for TextMap {
    fn clone(&self) -> (res: TextMap)
        ensures
            res@ == self@,
            res.keys() == self.keys(),
            res.values() == self.values(),
    {
        proof {
            use_type_invariant(self);
        }
        let mut entries: Vec<TextEntry> = Vec::new();
        let mut i: usize = 0;
        while i < self.entries.len()
            invariant
                i <= self.entries@.len(),
                entries@.len() == i,
                forall|j: int|
                    0 <= j < i ==> (#[trigger] entries@[j]).key@ == self.entries@[j].key@
                        && entries@[j].value@ == self.entries@[j].value@,
            decreases self.entries.len() - i,
        {
            entries.push(
                TextEntry {
                    key: self.entries[i].key.clone(),
                    value: self.entries[i].value.clone(),
                },
            );
            i += 1;
        }
        assert(ascending(entries@)) by {
            assert forall|a: int, b: int| 0 <= a < b < entries@.len() implies before(
                (#[trigger] entries@[a]).key@,
                (#[trigger] entries@[b]).key@,
            ) by {
                assert(before(self.entries@[a].key@, self.entries@[b].key@));
            }
        }
        let res = TextMap { entries };
        assert(res.keys() =~= self.keys());
        assert(res.values() =~= self.values());
        res
    }
}

impl Default for TextMap {
    fn default() -> (res: TextMap)
        ensures
            res@ == Map::<Seq<char>, Seq<char>>::empty(),
            res.keys() == Seq::<Seq<char>>::empty(),
    {
        TextMap::new()
    }
}

/// The order of texts is that of a dictionary: the first character in which two texts differ
/// decides, and a beginning comes before what goes on.
pub proof fn the_first_difference_decides(
    common: Seq<char>,
    a: char,
    b: char,
    x: Seq<char>,
    y: Seq<char>,
)
    requires
        a != b,
    ensures
        before(common + seq![a] + x, common + seq![b] + y) <==> (a as u32) < (b as u32),
        before(common, common + seq![a] + x),
        !before(common + seq![a] + x, common),
    decreases common.len(),
{
    let l = common + seq![a] + x;
    let r = common + seq![b] + y;
    if common.len() > 0 {
        let rest = common.drop_first();
        the_first_difference_decides(rest, a, b, x, y);
        assert(l.drop_first() =~= rest + seq![a] + x);
        assert(r.drop_first() =~= rest + seq![b] + y);
        assert(l[0] == common[0] && r[0] == common[0]);
    } else {
        assert(l[0] == a && r[0] == b);
    }
}

} // verus!

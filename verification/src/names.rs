//! Tables keyed by name, kept in the order of the names.

use vstd::prelude::*;

use crate::text;

verus! {

/// Whether `a` and `b` agree before `p` and `a` is smaller there.
pub open spec fn smaller_at(a: Seq<u8>, b: Seq<u8>, p: int) -> bool {
    &&& 0 <= p <= a.len()
    &&& p < b.len()
    &&& forall|i: int| 0 <= i < p ==> a[i] == b[i]
    &&& (p == a.len() || a[p] < b[p])
}

/// The lexicographic order of byte sequences.
pub open spec fn bytes_lt(a: Seq<u8>, b: Seq<u8>) -> bool {
    exists|p: int| #[trigger] smaller_at(a, b, p)
}

/// The order of texts: the lexicographic order of their UTF-8 bytes.
pub open spec fn text_lt(a: Seq<char>, b: Seq<char>) -> bool {
    bytes_lt(vstd::utf8::encode_utf8(a), vstd::utf8::encode_utf8(b))
}

proof fn lemma_bytes_lt_irreflexive(a: Seq<u8>)
    ensures
        !bytes_lt(a, a),
{
}

proof fn lemma_bytes_lt_transitive(a: Seq<u8>, b: Seq<u8>, c: Seq<u8>)
    requires
        bytes_lt(a, b),
        bytes_lt(b, c),
    ensures
        bytes_lt(a, c),
{
    let p = choose|p: int| #[trigger] smaller_at(a, b, p);
    let q = choose|q: int| #[trigger] smaller_at(b, c, q);
    let r = if p < q {
        p
    } else {
        q
    };
    assert forall|i: int| 0 <= i < r implies a[i] == c[i] by {
        assert(a[i] == b[i]);
        assert(b[i] == c[i]);
    }
    assert(smaller_at(a, c, r));
}

/// No text comes before itself.
pub proof fn lemma_text_lt_irreflexive(a: Seq<char>)
    ensures
        !text_lt(a, a),
{
    lemma_bytes_lt_irreflexive(vstd::utf8::encode_utf8(a));
}

/// The order of texts is transitive.
pub proof fn lemma_text_lt_transitive(a: Seq<char>, b: Seq<char>, c: Seq<char>)
    requires
        text_lt(a, b),
        text_lt(b, c),
    ensures
        text_lt(a, c),
{
    lemma_bytes_lt_transitive(
        vstd::utf8::encode_utf8(a),
        vstd::utf8::encode_utf8(b),
        vstd::utf8::encode_utf8(c),
    );
}

/// Of two texts at most one comes before the other.
pub proof fn lemma_text_lt_asymmetric(a: Seq<char>, b: Seq<char>)
    requires
        text_lt(a, b),
    ensures
        !text_lt(b, a),
{
    if text_lt(b, a) {
        lemma_text_lt_transitive(a, b, a);
        lemma_text_lt_irreflexive(a);
    }
}

/// How two texts lie in the order.
#[derive(Debug, Clone, Copy, PartialEq, Eq, Structural)]
pub enum Place {
    Before,
    Same,
    After,
}

/// Where `a` lies with respect to `b`.
pub fn place(a: &str, b: &str) -> (r: Place)
    ensures
        match r {
            Place::Before => text_lt(a@, b@) && a@ != b@,
            Place::Same => a@ == b@,
            Place::After => text_lt(b@, a@) && a@ != b@,
        },
{
    let x = a.as_bytes();
    let y = b.as_bytes();
    let mut i: usize = 0;
    proof {
        lemma_text_lt_irreflexive(a@);
    }
    while i < x.len() && i < y.len() && x[i] == y[i]
        invariant
            i <= x@.len(),
            i <= y@.len(),
            forall|j: int| 0 <= j < i ==> x@[j] == y@[j],
        decreases x@.len() - i,
    {
        i = i + 1;
    }
    if i == x.len() && i == y.len() {
        proof {
            assert(x@ =~= y@);
            text::lemma_utf8_injective(a@, b@);
        }
        Place::Same
    } else if i == x.len() || (i < y.len() && x[i] < y[i]) {
        assert(smaller_at(x@, y@, i as int));
        Place::Before
    } else {
        assert(smaller_at(y@, x@, i as int));
        Place::After
    }
}

/// Names in strictly increasing order.
pub open spec fn increasing(names: Seq<String>) -> bool {
    forall|i: int, j: int| 0 <= i < j < names.len() ==> text_lt((#[trigger] names[i])@, (#[trigger] names[j])@)
}

/// A table from names to values, in the order of the names.
#[derive(Debug)]
pub struct NameMap<V> {
    pub names: Vec<String>,
    pub values: Vec<V>,
}

/// The position of `name`, if it is in `names`.
pub open spec fn position(names: Seq<String>, name: Seq<char>) -> Option<int> {
    if exists|i: int| 0 <= i < names.len() && (#[trigger] names[i])@ == name {
        Some(choose|i: int| 0 <= i < names.len() && (#[trigger] names[i])@ == name)
    } else {
        None
    }
}

impl<V> NameMap<V> {
    pub open spec fn wf(&self) -> bool {
        &&& self.names@.len() == self.values@.len()
        &&& increasing(self.names@)
    }

    /// The names with their values.
    pub open spec fn view(&self) -> Map<Seq<char>, V> {
        Map::new(
            |name: Seq<char>| position(self.names@, name) is Some,
            |name: Seq<char>| self.values@[position(self.names@, name)->0],
        )
    }

    pub fn new() -> (r: Self)
        ensures
            r.wf(),
            r@ == Map::<Seq<char>, V>::empty(),
            r.names@.len() == 0,
    {
        let r = NameMap { names: Vec::new(), values: Vec::new() };
        assert(r@ =~= Map::<Seq<char>, V>::empty());
        r
    }

    pub fn len(&self) -> (r: usize)
        ensures
            r == self.names@.len(),
    {
        self.names.len()
    }

    /// The place of `name`: where it is, or where it would go.
    pub fn search(&self, name: &str) -> (r: Result<usize, usize>)
        requires
            self.wf(),
        ensures
            match r {
                Ok(i) => {
                    &&& i < self.names@.len()
                    &&& self.names@[i as int]@ == name@
                    &&& self@.contains_key(name@)
                    &&& self@[name@] == self.values@[i as int]
                },
                Err(i) => {
                    &&& i <= self.names@.len()
                    &&& !self@.contains_key(name@)
                    &&& forall|j: int| 0 <= j < i ==> text_lt((#[trigger] self.names@[j])@, name@)
                    &&& forall|j: int|
                        i <= j < self.names@.len() ==> text_lt(name@, (#[trigger] self.names@[j])@)
                },
            },
    {
        let mut lo: usize = 0;
        let mut hi: usize = self.names.len();
        while lo < hi
            invariant
                self.wf(),
                lo <= hi <= self.names@.len(),
                forall|j: int| 0 <= j < lo ==> text_lt((#[trigger] self.names@[j])@, name@),
                forall|j: int|
                    hi <= j < self.names@.len() ==> text_lt(name@, (#[trigger] self.names@[j])@),
            decreases hi - lo,
        {
            let mid: usize = lo + (hi - lo) / 2;
            match place(self.names[mid].as_str(), name) {
                Place::Same => {
                    proof {
                        lemma_position(self.names@, mid as int);
                    }
                    return Ok(mid);
                },
                Place::Before => {
                    proof {
                        assert forall|j: int| 0 <= j < mid + 1 implies text_lt(
                            (#[trigger] self.names@[j])@,
                            name@,
                        ) by {
                            if j < mid {
                                lemma_text_lt_transitive(
                                    self.names@[j]@,
                                    self.names@[mid as int]@,
                                    name@,
                                );
                            }
                        }
                    }
                    lo = mid + 1;
                },
                Place::After => {
                    proof {
                        assert forall|j: int| mid <= j < self.names@.len() implies text_lt(
                            name@,
                            (#[trigger] self.names@[j])@,
                        ) by {
                            if j > mid {
                                lemma_text_lt_transitive(
                                    name@,
                                    self.names@[mid as int]@,
                                    self.names@[j]@,
                                );
                            }
                        }
                    }
                    hi = mid;
                },
            }
        }
        proof {
            lemma_text_lt_irreflexive(name@);
            assert(position(self.names@, name@) is None);
        }
        Err(lo)
    }

    pub fn get(&self, name: &str) -> (r: Option<&V>)
        requires
            self.wf(),
        ensures
            match r {
                Some(v) => self@.contains_key(name@) && *v == self@[name@],
                None => !self@.contains_key(name@),
            },
    {
        match self.search(name) {
            Ok(i) => Some(&self.values[i]),
            Err(_) => None,
        }
    }

    pub fn contains(&self, name: &str) -> (r: bool)
        requires
            self.wf(),
        ensures
            r == self@.contains_key(name@),
    {
        match self.search(name) {
            Ok(_) => true,
            Err(_) => false,
        }
    }

    /// Adds a name that the table does not hold yet; `false` when it does.
    pub fn insert_new(&mut self, name: String, value: V) -> (r: bool)
        requires
            old(self).wf(),
        ensures
            final(self).wf(),
            r == !old(self)@.contains_key(name@),
            r ==> final(self)@ == old(self)@.insert(name@, value),
            r ==> final(self).names@.len() == old(self).names@.len() + 1,
            !r ==> *final(self) == *old(self),
    {
        match self.search(name.as_str()) {
            Ok(_) => false,
            Err(at) => {
                let ghost key = name@;
                let ghost before = *self;
                self.names.insert(at, name);
                self.values.insert(at, value);
                proof {
                    let names = self.names@;
                    assert forall|i: int, j: int| 0 <= i < j < names.len() implies text_lt(
                        (#[trigger] names[i])@,
                        (#[trigger] names[j])@,
                    ) by {
                        let x = if i < at {
                            i
                        } else {
                            i - 1
                        };
                        let y = if j < at {
                            j
                        } else {
                            j - 1
                        };
                        if i == at {
                            assert(names[j] == before.names@[y]);
                        } else if j == at {
                            assert(names[i] == before.names@[x]);
                        } else {
                            assert(names[i] == before.names@[x]);
                            assert(names[j] == before.names@[y]);
                        }
                    }
                    lemma_view_entries(*self);
                    lemma_view_entries(before);
                    assert forall|k: Seq<char>| #[trigger] self@.contains_key(k) == before@.insert(
                        key,
                        value,
                    ).contains_key(k) by {
                        if self@.contains_key(k) && k != key {
                            let i = position(names, k)->0;
                            let x = if i < at {
                                i
                            } else {
                                i - 1
                            };
                            assert(before.names@[x]@ == k);
                        }
                        if before@.contains_key(k) {
                            let x = position(before.names@, k)->0;
                            let i = if x < at {
                                x
                            } else {
                                x + 1
                            };
                            assert(names[i]@ == k);
                        }
                        if k == key {
                            assert(names[at as int]@ == key);
                        }
                    }
                    assert forall|k: Seq<char>| self@.contains_key(k) implies #[trigger] self@[k]
                        == before@.insert(key, value)[k] by {
                        let i = position(names, k)->0;
                        if k == key {
                            assert(names[at as int]@ == key);
                            lemma_position(names, at as int);
                        } else {
                            let x = if i < at {
                                i
                            } else {
                                i - 1
                            };
                            assert(before.names@[x]@ == k);
                            lemma_position(before.names@, x);
                        }
                    }
                    assert(self@ =~= before@.insert(key, value));
                }
                true
            },
        }
    }

    /// The value under `name`, for changing.
    pub fn get_mut(&mut self, name: &str) -> (r: Option<&mut V>)
        requires
            old(self).wf(),
        ensures
            final(self).wf(),
            match r {
                Some(v) => {
                    &&& old(self)@.contains_key(name@)
                    &&& *v == old(self)@[name@]
                    &&& final(self)@ == old(self)@.insert(name@, *final(v))
                },
                None => !old(self)@.contains_key(name@) && *final(self) == *old(self),
            },
    {
        match self.search(name) {
            Ok(i) => {
                proof {
                    lemma_replaced_value(*self, i as int);
                }
                Some(&mut self.values[i])
            },
            Err(_) => None,
        }
    }

    /// Takes `name` and its value out of the table.
    pub fn remove(&mut self, name: &str) -> (r: Option<V>)
        requires
            old(self).wf(),
        ensures
            final(self).wf(),
            match r {
                Some(v) => {
                    &&& old(self)@.contains_key(name@)
                    &&& v == old(self)@[name@]
                    &&& final(self)@ == old(self)@.remove(name@)
                    &&& final(self).names@.len() == old(self).names@.len() - 1
                },
                None => !old(self)@.contains_key(name@) && *final(self) == *old(self),
            },
    {
        match self.search(name) {
            Ok(at) => {
                let ghost before = *self;
                let _ = self.names.remove(at);
                let value = self.values.remove(at);
                proof {
                    let names = self.names@;
                    assert forall|i: int, j: int| 0 <= i < j < names.len() implies text_lt(
                        (#[trigger] names[i])@,
                        (#[trigger] names[j])@,
                    ) by {
                        assert(names[i] == before.names@[if i < at { i } else { i + 1 }]);
                        assert(names[j] == before.names@[if j < at { j } else { j + 1 }]);
                    }
                    lemma_view_entries(*self);
                    lemma_view_entries(before);
                    lemma_position(before.names@, at as int);
                    assert forall|k: Seq<char>| #[trigger] self@.contains_key(k) == before@.remove(
                        name@,
                    ).contains_key(k) by {
                        if self@.contains_key(k) {
                            let i = position(names, k)->0;
                            let x = if i < at {
                                i
                            } else {
                                i + 1
                            };
                            assert(before.names@[x]@ == k);
                            lemma_position(before.names@, x);
                        }
                        if before@.contains_key(k) && k != name@ {
                            let x = position(before.names@, k)->0;
                            let i = if x < at {
                                x
                            } else {
                                x - 1
                            };
                            assert(names[i]@ == k);
                        }
                    }
                    assert forall|k: Seq<char>| self@.contains_key(k) implies #[trigger] self@[k]
                        == before@.remove(name@)[k] by {
                        let i = position(names, k)->0;
                        let x = if i < at {
                            i
                        } else {
                            i + 1
                        };
                        assert(before.names@[x]@ == k);
                        lemma_position(before.names@, x);
                    }
                    assert(self@ =~= before@.remove(name@));
                }
                Some(value)
            },
            Err(_) => None,
        }
    }
}

/// Changing the value of row `i` changes what is found under its name alone.
proof fn lemma_replaced_value<V>(m: NameMap<V>, i: int)
    requires
        m.wf(),
        0 <= i < m.names@.len(),
    ensures
        forall|n: NameMap<V>, v: V|
            n.names == m.names && #[trigger] m.values@.update(i, v) == #[trigger] n.values@ ==> n@
                == m@.insert(m.names@[i]@, v),
{
    lemma_position(m.names@, i);
    assert forall|n: NameMap<V>, v: V|
        n.names == m.names && #[trigger] m.values@.update(i, v) == #[trigger] n.values@ implies n@
        == m@.insert(m.names@[i]@, v) by {
        assert forall|k: Seq<char>| n@.contains_key(k) implies #[trigger] n@[k] == m@.insert(
            m.names@[i]@,
            v,
        )[k] by {
            let p = position(m.names@, k)->0;
            assert(m.names@[p]@ == k);
            lemma_position(m.names@, p);
        }
        assert(n@ =~= m@.insert(m.names@[i]@, v));
    }
}

/// In increasing names each name has one position.
pub proof fn lemma_position(names: Seq<String>, i: int)
    requires
        increasing(names),
        0 <= i < names.len(),
    ensures
        position(names, names[i]@) == Some(i),
{
    let name = names[i]@;
    let p = position(names, name)->0;
    assert(names[p]@ == name);
    if p < i {
        lemma_text_lt_irreflexive(name);
    } else if i < p {
        lemma_text_lt_irreflexive(name);
    }
}

/// Every row of the table is found under its name.
pub proof fn lemma_view_entries<V>(m: NameMap<V>)
    requires
        m.wf(),
    ensures
        forall|i: int|
            #![trigger m.names@[i]]
            #![trigger m.values@[i]]
            0 <= i < m.names@.len() ==> m@.contains_key(m.names@[i]@) && m@[m.names@[i]@] == m.values@[i],
{
    assert forall|i: int|
        #![trigger m.names@[i]]
        #![trigger m.values@[i]]
        0 <= i < m.names@.len() implies m@.contains_key(m.names@[i]@) && m@[m.names@[i]@]
        == m.values@[i] by {
        lemma_position(m.names@, i);
    }
}

// ----------------------------------------------------------------------- laws

/// Texts are in the order of their bytes: of two different texts exactly one comes first, and
/// which one the first place tells at which they differ, the shorter one where one goes on
/// behind the other.
pub proof fn law_texts_are_ordered_by_their_bytes(a: Seq<char>, b: Seq<char>, p: int)
    requires
        ({
            let x = vstd::utf8::encode_utf8(a);
            let y = vstd::utf8::encode_utf8(b);
            &&& 0 <= p <= x.len() && p <= y.len()
            &&& forall|i: int| 0 <= i < p ==> x[i] == y[i]
            &&& p == x.len() || p == y.len() || x[p] != y[p]
        }),
    ensures
        ({
            let x = vstd::utf8::encode_utf8(a);
            let y = vstd::utf8::encode_utf8(b);
            &&& text_lt(a, b) <==> p < y.len() && (p == x.len() || x[p] < y[p])
            &&& text_lt(b, a) <==> p < x.len() && (p == y.len() || y[p] < x[p])
            &&& a == b <==> p == x.len() && p == y.len()
        }),
{
    let x = vstd::utf8::encode_utf8(a);
    let y = vstd::utf8::encode_utf8(b);
    if p == x.len() && p == y.len() {
        assert(x =~= y);
        text::lemma_utf8_injective(a, b);
    }
    if p < y.len() && (p == x.len() || x[p] < y[p]) {
        assert(smaller_at(x, y, p));
        lemma_text_lt_asymmetric(a, b);
        lemma_text_lt_irreflexive(a);
    } else if p < x.len() {
        assert(smaller_at(y, x, p));
        lemma_text_lt_asymmetric(b, a);
        lemma_text_lt_irreflexive(a);
    } else {
        lemma_text_lt_irreflexive(a);
    }
}

/// A table holds a name if and only if the name is one of its names, and holds under it the
/// value of the same place.
pub proof fn law_table_pairs_names_and_values<V>(table: NameMap<V>, i: int, name: Seq<char>)
    requires
        table.wf(),
    ensures
        0 <= i < table.names@.len() ==> {
            &&& table@.contains_key(table.names@[i]@)
            &&& table@[table.names@[i]@] == table.values@[i]
        },
        table@.contains_key(name) <==> exists|k: int|
            0 <= k < table.names@.len() && (#[trigger] table.names@[k])@ == name,
{
    if 0 <= i < table.names@.len() {
        let here = table.names@[i]@;
        assert(table.names@[i]@ == here);
        let k = position(table.names@, here)->0;
        assert(0 <= k < table.names@.len() && table.names@[k]@ == here);
        if k < i {
            assert(text_lt(table.names@[k]@, table.names@[i]@));
        } else if i < k {
            assert(text_lt(table.names@[i]@, table.names@[k]@));
        }
        lemma_text_lt_irreflexive(here);
    }
}

}

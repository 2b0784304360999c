//! Global variables of a script.
//!
//! The first variables survive a title's save files, the rest do not. Both kinds
//! share one numbering.

use vstd::prelude::*;

use crate::float::Float32;

verus! {

/// A value of the script language.
#[derive(Debug)]
pub enum Variant {
    Nil,
    True,
    Int(i32),
    Float(Float32),
    Text(String),
    /// A value that the engine keeps itself, such as a table, by its number there.
    Kept(u64),
}

impl Clone for Variant {
    fn clone(&self) -> (r: Self)
        ensures
            r == *self,
    {
        match self {
            Variant::Nil => Variant::Nil,
            Variant::True => Variant::True,
            Variant::Int(v) => Variant::Int(*v),
            Variant::Float(v) => Variant::Float(*v),
            Variant::Text(v) => Variant::Text(v.clone()),
            Variant::Kept(v) => Variant::Kept(*v),
        }
    }
}

/// The variables of a session.
#[derive(Debug)]
pub struct Global {
    pub table: Vec<Option<Variant>>,
    pub none_volatile_count: u16,
    pub volatile_count: u16,
}

/// All variables of a session, for an exact checkpoint.
#[derive(Debug)]
pub struct HostedGlobalSnapshot {
    pub non_volatile_count: u16,
    pub volatile_count: u16,
    pub values: Vec<Variant>,
}

#[verifier::ext_equal]
pub struct GlobalView {
    pub table: Map<u16, Variant>,
    pub non_volatile: u16,
    pub volatile: u16,
}

#[verifier::ext_equal]
pub struct SnapshotView {
    pub non_volatile: u16,
    pub volatile: u16,
    pub values: Seq<Variant>,
}

impl HostedGlobalSnapshot {
    pub open spec fn view(&self) -> SnapshotView {
        SnapshotView {
            non_volatile: self.non_volatile_count,
            volatile: self.volatile_count,
            values: self.values@,
        }
    }
}

impl GlobalView {
    /// The value of a variable; one that was never set is nil.
    pub open spec fn value(self, key: int) -> Variant {
        if self.table.contains_key(key as u16) {
            self.table[key as u16]
        } else {
            Variant::Nil
        }
    }

    /// The values of `count` variables from `base` on.
    pub open spec fn values(self, base: int, count: int) -> Seq<Variant> {
        Seq::new(count as nat, |i: int| self.value(base + i))
    }

    /// The variables after those from `base` on took the values `values`.
    pub open spec fn assigned(self, base: int, values: Seq<Variant>) -> GlobalView {
        GlobalView {
            table: Map::new(
                |k: u16| base <= k < base + values.len() || self.table.contains_key(k),
                |k: u16|
                    if base <= k < base + values.len() {
                        values[k - base]
                    } else {
                        self.table[k]
                    },
            ),
            ..self
        }
    }

    /// The variables after the writes from `i` on, in order.
    pub open spec fn written(self, writes: Seq<(u16, Variant)>, i: int) -> GlobalView
        decreases writes.len() - i,
    {
        if i >= writes.len() {
            self
        } else {
            GlobalView {
                table: self.table.insert(writes[i].0, writes[i].1),
                ..self
            }.written(writes, i + 1)
        }
    }

    /// Both kinds of variables together have numbers.
    pub open spec fn wf(self) -> bool {
        self.non_volatile + self.volatile <= u16::MAX
    }

    pub open spec fn captured(self) -> SnapshotView {
        SnapshotView {
            non_volatile: self.non_volatile,
            volatile: self.volatile,
            values: self.values(0, self.non_volatile + self.volatile),
        }
    }

    /// Whether a snapshot fits these variables.
    pub open spec fn fits(self, snapshot: SnapshotView) -> bool {
        &&& snapshot.non_volatile == self.non_volatile
        &&& snapshot.volatile == self.volatile
        &&& snapshot.values.len() == snapshot.non_volatile + snapshot.volatile
    }
}

/// The value that the last of the writes to a variable gives it, if there is one.
pub open spec fn last_write(writes: Seq<(u16, Variant)>, key: u16) -> Option<Variant>
    decreases writes.len(),
{
    if writes.len() == 0 {
        None
    } else if writes.last().0 == key {
        Some(writes.last().1)
    } else {
        last_write(writes.drop_last(), key)
    }
}

/// After writes a variable has the value of the last one to it.
pub proof fn lemma_written_value(globals: GlobalView, writes: Seq<(u16, Variant)>, i: int, key: u16)
    requires
        0 <= i <= writes.len(),
    ensures
        globals.written(writes, i).non_volatile == globals.non_volatile,
        globals.written(writes, i).volatile == globals.volatile,
        globals.written(writes, i).value(key as int) == match last_write(
            writes.subrange(i, writes.len() as int),
            key,
        ) {
            Some(value) => value,
            None => globals.value(key as int),
        },
    decreases writes.len() - i,
{
    let rest = writes.subrange(i, writes.len() as int);
    if i < writes.len() {
        let next = GlobalView { table: globals.table.insert(writes[i].0, writes[i].1), ..globals };
        lemma_written_value(next, writes, i + 1, key);
        lemma_first_write(rest, key);
        assert(rest.skip(1) =~= writes.subrange(i + 1, writes.len() as int));
    }
}

/// The last write to a variable is among the later ones, or it is the first one.
proof fn lemma_first_write(writes: Seq<(u16, Variant)>, key: u16)
    requires
        writes.len() > 0,
    ensures
        last_write(writes, key) == match last_write(writes.skip(1), key) {
            Some(value) => Some(value),
            None => if writes[0].0 == key {
                Some(writes[0].1)
            } else {
                None
            },
        },
    decreases writes.len(),
{
    if writes.len() == 1 {
        assert(writes.skip(1) =~= Seq::empty());
        assert(writes.drop_last() =~= Seq::empty());
    } else {
        assert(writes.skip(1).drop_last() =~= writes.drop_last().skip(1));
        assert(writes.skip(1).last() == writes.last());
        if writes.last().0 != key {
            lemma_first_write(writes.drop_last(), key);
        }
    }
}

/// The first values of `s`, at most `n` of them.
pub open spec fn at_most(s: Seq<Variant>, n: int) -> Seq<Variant> {
    s.subrange(0, if s.len() < n { s.len() as int } else { n })
}

impl Global {
    pub open spec fn view(&self) -> GlobalView {
        GlobalView {
            table: Map::new(
                |k: u16| k < self.table@.len() && self.table@[k as int] is Some,
                |k: u16| self.table@[k as int]->0,
            ),
            non_volatile: self.none_volatile_count,
            volatile: self.volatile_count,
        }
    }

    pub open spec fn wf(&self) -> bool {
        &&& self@.wf()
        &&& self.table@.len() <= 0x1_0000
    }

    pub fn new() -> (r: Self)
        ensures
            r.wf(),
            r@ == (GlobalView { table: Map::empty(), non_volatile: 0, volatile: 0 }),
    {
        let r = Global { table: Vec::new(), none_volatile_count: 0, volatile_count: 0 };
        assert(r@.table =~= Map::<u16, Variant>::empty());
        r
    }

    pub fn get(&self, key: u16) -> (r: Option<&Variant>)
        ensures
            match r {
                Some(v) => self@.table.contains_key(key) && *v == self@.table[key],
                None => !self@.table.contains_key(key),
            },
    {
        if (key as usize) < self.table.len() {
            match &self.table[key as usize] {
                Some(v) => Some(v),
                None => None,
            }
        } else {
            None
        }
    }

    fn value_of(&self, key: u16) -> (r: Variant)
        ensures
            r == self@.value(key as int),
    {
        match self.get(key) {
            Some(v) => v.clone(),
            None => Variant::Nil,
        }
    }

    pub fn set(&mut self, key: u16, value: Variant)
        requires
            old(self).wf(),
        ensures
            final(self).wf(),
            final(self)@ == (GlobalView {
                table: old(self)@.table.insert(key, value),
                ..old(self)@
            }),
    {
        let ghost before = self@;
        while self.table.len() <= key as usize
            invariant
                self@ == before,
                self.wf(),
            decreases key + 1 - self.table@.len(),
        {
            let ghost prior = self@.table;
            self.table.push(None);
            assert(self@.table =~= prior);
        }
        self.table.set(key as usize, Some(value));
        assert(self@.table =~= before.table.insert(key, value));
    }

    /// Sets variables, one after the other.
    pub fn write(&mut self, writes: Vec<(u16, Variant)>)
        requires
            old(self).wf(),
        ensures
            final(self).wf(),
            final(self)@ == old(self)@.written(writes@, 0),
    {
        for write in it: writes
            invariant
                self.wf(),
                it.seq() == writes@,
                old(self)@.written(writes@, 0) == self@.written(writes@, it.index() as int),
        {
            self.set(write.0, write.1);
        }
    }

    /// The variable `key`, to be changed in place.
    pub fn get_mut(&mut self, key: u16) -> (r: Option<&mut Variant>)
        requires
            old(self).wf(),
        ensures
            final(self).wf(),
            match r {
                Some(v) => {
                    &&& old(self)@.table.contains_key(key)
                    &&& *v == old(self)@.table[key]
                    &&& final(self)@ == (GlobalView {
                        table: old(self)@.table.insert(key, *final(v)),
                        ..old(self)@
                    })
                },
                None => !old(self)@.table.contains_key(key) && final(self)@ == old(self)@,
            },
    {
        if (key as usize) < self.table.len() {
            match &mut self.table[key as usize] {
                Some(v) => Some(v),
                None => None,
            }
        } else {
            None
        }
    }

    /// Makes room for the two kinds of variables; all of them become nil.
    pub fn init_with(&mut self, none_volatile: u16, volatile: u16)
        requires
            old(self).wf(),
            none_volatile + volatile <= u16::MAX,
        ensures
            final(self).wf(),
            final(self)@ == (GlobalView {
                non_volatile: none_volatile,
                volatile: volatile,
                ..old(self)@
            }).assigned(
                0,
                Seq::new((none_volatile + volatile) as nat, |i: int| Variant::Nil),
            ),
    {
        let ghost nils = Seq::new((none_volatile + volatile) as nat, |i: int| Variant::Nil);
        let ghost before = GlobalView { non_volatile: none_volatile, volatile, ..self@ };
        self.none_volatile_count = none_volatile;
        self.volatile_count = volatile;
        let total: u16 = none_volatile + volatile;
        let mut i: u16 = 0;
        assert(self@.table =~= before.assigned(0, nils.subrange(0, 0)).table);
        while i < total
            invariant
                self.wf(),
                i <= total == nils.len(),
                nils == Seq::new(total as nat, |i: int| Variant::Nil),
                self@ == before.assigned(0, nils.subrange(0, i as int)),
            decreases total - i,
        {
            self.set(i, Variant::Nil);
            assert(self@.table =~= before.assigned(0, nils.subrange(0, i + 1)).table);
            i = i + 1;
        }
        assert(nils.subrange(0, total as int) =~= nils);
    }

    /// The integer value of the volatile variable `key`; zero when it holds
    /// something else.
    pub fn get_int_var(&self, key: u16) -> (r: i32)
        requires
            key + self.none_volatile_count <= u16::MAX,
        ensures
            match self@.value(key + self@.non_volatile) {
                Variant::Int(v) => r == v,
                _ => r == 0,
            },
    {
        match self.get(key + self.none_volatile_count) {
            Some(Variant::Int(v)) => *v,
            _ => 0,
        }
    }

    pub fn non_volatile_count(&self) -> (r: u16)
        ensures
            r == self@.non_volatile,
    {
        self.none_volatile_count
    }

    pub fn volatile_count(&self) -> (r: u16)
        ensures
            r == self@.volatile,
    {
        self.volatile_count
    }

    /// The values of `count` variables from `base` on.
    fn values_from(&self, base: u16, count: u16) -> (r: Vec<Variant>)
        requires
            base + count <= u16::MAX,
        ensures
            r@ == self@.values(base as int, count as int),
    {
        let mut out: Vec<Variant> = Vec::new();
        let mut i: u16 = 0;
        while i < count
            invariant
                i <= count,
                base + count <= u16::MAX,
                out@ =~= self@.values(base as int, count as int).subrange(0, i as int),
            decreases count - i,
        {
            out.push(self.value_of(base + i));
            i = i + 1;
        }
        assert(out@ =~= self@.values(base as int, count as int));
        out
    }

    /// Gives the variables from `base` on the values `vals`, at most `limit` of them.
    fn assign_from(&mut self, base: u16, vals: &[Variant], limit: u16)
        requires
            old(self).wf(),
            base + limit <= u16::MAX,
        ensures
            final(self).wf(),
            final(self)@ == old(self)@.assigned(base as int, at_most(vals@, limit as int)),
    {
        let n: usize = if vals.len() < limit as usize {
            vals.len()
        } else {
            limit as usize
        };
        let ghost before = self@;
        let mut i: usize = 0;
        assert(self@.table =~= before.assigned(base as int, vals@.subrange(0, 0)).table);
        while i < n
            invariant
                self.wf(),
                i <= n <= vals@.len(),
                n <= limit,
                base + limit <= u16::MAX,
                self@ == before.assigned(base as int, vals@.subrange(0, i as int)),
            decreases n - i,
        {
            self.set(base + i as u16, vals[i].clone());
            assert(self@.table =~= before.assigned(base as int, vals@.subrange(0, i + 1)).table);
            i = i + 1;
        }
    }

    pub fn snapshot_non_volatile(&self) -> (r: Vec<Variant>)
        ensures
            r@ == self@.values(0, self@.non_volatile as int),
    {
        self.values_from(0, self.none_volatile_count)
    }

    /// Restores the non-volatile variables; those without a value stay as they are.
    pub fn restore_non_volatile(&mut self, vals: &[Variant])
        requires
            old(self).wf(),
        ensures
            final(self).wf(),
            final(self)@ == old(self)@.assigned(0, at_most(vals@, old(self)@.non_volatile as int)),
    {
        self.assign_from(0, vals, self.none_volatile_count);
    }

    pub fn snapshot_volatile_globals(&self) -> (r: Vec<Variant>)
        requires
            self.wf(),
        ensures
            r@ == self@.values(self@.non_volatile as int, self@.volatile as int),
    {
        self.values_from(self.none_volatile_count, self.volatile_count)
    }

    /// Restores the volatile variables; those without a value stay as they are. The
    /// result tells whether the saved counts were the present ones.
    pub fn restore_volatile_globals(
        &mut self,
        expected_non_volatile: u16,
        expected_volatile: u16,
        vars: &[Variant],
    ) -> (r: bool)
        requires
            old(self).wf(),
        ensures
            final(self).wf(),
            final(self)@ == old(self)@.assigned(
                old(self)@.non_volatile as int,
                at_most(vars@, old(self)@.volatile as int),
            ),
            r == (expected_non_volatile == old(self)@.non_volatile && expected_volatile == old(
                self,
            )@.volatile),
    {
        let same = expected_non_volatile == self.none_volatile_count && expected_volatile
            == self.volatile_count;
        self.assign_from(self.none_volatile_count, vars, self.volatile_count);
        same
    }

    /// All variables.
    pub fn capture_hosted_snapshot(&self) -> (r: HostedGlobalSnapshot)
        requires
            self.wf(),
        ensures
            r@ == self@.captured(),
    {
        HostedGlobalSnapshot {
            non_volatile_count: self.none_volatile_count,
            volatile_count: self.volatile_count,
            values: self.values_from(0, self.none_volatile_count + self.volatile_count),
        }
    }

    /// Restores all variables from a snapshot that fits; `false` and no change from
    /// one that does not.
    pub fn restore_hosted_snapshot(&mut self, snapshot: &HostedGlobalSnapshot) -> (r: bool)
        requires
            old(self).wf(),
        ensures
            final(self).wf(),
            r == old(self)@.fits(snapshot@),
            r ==> final(self)@ == old(self)@.assigned(0, snapshot@.values),
            !r ==> final(self)@ == old(self)@,
    {
        let total: usize = snapshot.non_volatile_count as usize + snapshot.volatile_count as usize;
        if snapshot.non_volatile_count != self.none_volatile_count || snapshot.volatile_count
            != self.volatile_count || snapshot.values.len() != total {
            return false;
        }
        self.assign_from(0, snapshot.values.as_slice(), total as u16);
        assert(at_most(snapshot@.values, total as int) =~= snapshot@.values);
        true
    }
}

impl Default for Global {
    fn default() -> (r: Self)
        ensures
            r.wf(),
            r@ == (GlobalView { table: Map::empty(), non_volatile: 0, volatile: 0 }),
    {
        Global::new()
    }
}

/// Restoring a captured snapshot brings back every variable: what is captured
/// afterwards is the snapshot, whatever the variables held before.
pub proof fn law_snapshot_round_trip(taken: GlobalView, other: GlobalView)
    requires
        taken.wf(),
        other.non_volatile == taken.non_volatile,
        other.volatile == taken.volatile,
    ensures
        other.fits(taken.captured()),
        other.assigned(0, taken.captured().values).captured() == taken.captured(),
{
    let restored = other.assigned(0, taken.captured().values);
    assert(restored.captured().values =~= taken.captured().values);
}

/// Saving and restoring the non-volatile variables leaves them, and all others,
/// as they are.
pub proof fn law_non_volatile_round_trip(g: GlobalView)
    requires
        g.wf(),
    ensures
        ({
            let saved = g.values(0, g.non_volatile as int);
            let restored = g.assigned(0, at_most(saved, g.non_volatile as int));
            &&& restored.values(0, g.non_volatile as int) == saved
            &&& forall|k: int| 0 <= k <= u16::MAX ==> #[trigger] restored.value(k) == g.value(k)
        }),
{
    let saved = g.values(0, g.non_volatile as int);
    let restored = g.assigned(0, at_most(saved, g.non_volatile as int));
    assert(restored.values(0, g.non_volatile as int) =~= saved);
}

/// A snapshot has the counts and, in the order of their numbers, all variables: what was
/// set, and nil where nothing was.
pub proof fn law_snapshot_holds_each_variable(g: GlobalView, key: u16)
    requires
        g.wf(),
    ensures
        g.captured().non_volatile == g.non_volatile,
        g.captured().volatile == g.volatile,
        g.captured().values.len() == g.non_volatile + g.volatile,
        key < g.non_volatile + g.volatile ==> {
            &&& g.table.contains_key(key) ==> g.captured().values[key as int] == g.table[key]
            &&& !g.table.contains_key(key) ==> g.captured().values[key as int] is Nil
        },
        key < g.non_volatile ==> g.values(0, g.non_volatile as int)[key as int]
            == g.captured().values[key as int],
        key < g.volatile ==> g.values(g.non_volatile as int, g.volatile as int)[key as int]
            == g.captured().values[g.non_volatile + key],
{
}

/// Values that are restored from `base` on are those of the variables from there, one for
/// one; every other variable keeps what it has, and so do the counts. Values beyond the
/// limit are left out.
pub proof fn law_restoring_sets_what_it_is_given(
    g: GlobalView,
    base: u16,
    given: Seq<Variant>,
    limit: u16,
    key: u16,
)
    requires
        base + limit <= u16::MAX,
    ensures
        ({
            let after = g.assigned(base as int, at_most(given, limit as int));
            &&& after.non_volatile == g.non_volatile
            &&& after.volatile == g.volatile
            &&& base <= key && key - base < given.len() && key - base < limit ==> {
                &&& after.table.contains_key(key)
                &&& after.table[key] == given[key - base]
            }
            &&& key < base || key - base >= given.len() || key - base >= limit ==> {
                &&& after.table.contains_key(key) == g.table.contains_key(key)
                &&& g.table.contains_key(key) ==> after.table[key] == g.table[key]
            }
        }),
{
}

/// A snapshot fits only variables of the same counts, and only if it has a value for each.
pub proof fn law_only_its_own_snapshot_fits(g: GlobalView, snapshot: SnapshotView)
    ensures
        g.fits(snapshot) <==> {
            &&& snapshot.non_volatile == g.non_volatile
            &&& snapshot.volatile == g.volatile
            &&& snapshot.values.len() == g.non_volatile + g.volatile
        },
{
}

/// A variable has the value of the last write to it; one that is not written keeps its own.
pub proof fn law_last_write_counts(
    g: GlobalView,
    writes: Seq<(u16, Variant)>,
    key: u16,
    value: Variant,
    other: u16,
)
    ensures
        g.written(Seq::empty(), 0) == g,
        g.written(writes.push((key, value)), 0).value(key as int) == value,
        other != key ==> g.written(writes.push((key, value)), 0).value(other as int) == g.written(
            writes,
            0,
        ).value(other as int),
{
    let all = writes.push((key, value));
    lemma_written_value(g, all, 0, key);
    lemma_written_value(g, all, 0, other);
    lemma_written_value(g, writes, 0, other);
    assert(all.subrange(0, all.len() as int) =~= all);
    assert(writes.subrange(0, writes.len() as int) =~= writes);
    assert(all.drop_last() =~= writes);
}

}

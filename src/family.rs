use vstd::prelude::*;

verus! {

/// A label-set: the named dimension values that identify one time series.
pub type LabelSet = Vec<(String, String)>;

/// The mathematical value of a label-set: its pairs of name and value, in order.
pub type LabelKey = Seq<(Seq<char>, Seq<char>)>;

/// The key of a label-set.
pub open spec fn key_of(l: LabelSet) -> LabelKey {
    l@.map_values(|p: (String, String)| (p.0@, p.1@))
}

/// Whether two label-sets name the same time series.
pub fn same_labels(a: &LabelSet, b: &LabelSet) -> (r: bool)
    ensures
        r == (key_of(*a) == key_of(*b)),
{
    if a.len() != b.len() {
        assert(key_of(*a).len() != key_of(*b).len());
        return false;
    }
    let mut i: usize = 0;
    while i < a.len()
        invariant
            a.len() == b.len(),
            i <= a.len(),
            forall|j: int| 0 <= j < i ==> key_of(*a)[j] == key_of(*b)[j],
        decreases a.len() - i,
    {
        if a[i].0 != b[i].0 || a[i].1 != b[i].1 {
            assert(key_of(*a)[i as int] != key_of(*b)[i as int]);
            return false;
        }
        i = i + 1;
    }
    assert(key_of(*a) =~= key_of(*b));
    true
}

/// A copy of a label-set.
pub fn clone_labels(l: &LabelSet) -> (r: LabelSet)
    ensures
        key_of(r) == key_of(*l),
{
    let mut r: LabelSet = Vec::new();
    let mut i: usize = 0;
    while i < l.len()
        invariant
            i <= l.len(),
            r@.len() == i,
            forall|j: int| 0 <= j < i ==> key_of(r)[j] == key_of(*l)[j],
        decreases l.len() - i,
    {
        let n = l[i].0.clone();
        let v = l[i].1.clone();
        r.push((n, v));
        i = i + 1;
    }
    assert(key_of(r) =~= key_of(*l));
    r
}

/// A metric family: a mapping from label-set to the value of one metric.
/// Counters and gauges are both families; what differs is which operations
/// the merge applies to them.
pub struct Family {
    entries: Vec<(LabelSet, i64)>,
    contents: Ghost<Map<LabelKey, int>>,
}

impl View for Family {
    type V = Map<LabelKey, int>;

    closed spec fn view(&self) -> Map<LabelKey, int> {
        self.contents@
    }
}

impl Family {
    /// The entries hold each key once, and exactly the keys of the view,
    /// with its values.
    pub closed spec fn wf(&self) -> bool {
        &&& forall|i: int|
            0 <= i < self.entries@.len() ==> self.contents@.contains_key(
                key_of(#[trigger] self.entries@[i].0),
            ) && self.contents@[key_of(self.entries@[i].0)] == self.entries@[i].1 as int
        &&& forall|k: LabelKey| #[trigger]
            self.contents@.contains_key(k) ==> exists|i: int|
                0 <= i < self.entries@.len() && key_of(self.entries@[i].0) == k
        &&& forall|i: int, j: int|
            0 <= i < self.entries@.len() && 0 <= j < self.entries@.len() && key_of(
                #[trigger] self.entries@[i].0,
            ) == key_of(#[trigger] self.entries@[j].0) ==> i == j
    }

    /// An empty family.
    pub fn new() -> (r: Family)
        ensures
            r.wf(),
            r@ == Map::<LabelKey, int>::empty(),
    {
        Family { entries: Vec::new(), contents: Ghost(Map::empty()) }
    }

    /// The position of the entry for `label`, if there is one.
    fn find(&self, label: &LabelSet) -> (r: Option<usize>)
        requires
            self.wf(),
        ensures
            match r {
                Some(i) => i < self.entries@.len() && key_of(self.entries@[i as int].0) == key_of(
                    *label,
                ),
                None => !self@.contains_key(key_of(*label)),
            },
    {
        let mut i: usize = 0;
        while i < self.entries.len()
            invariant
                self.wf(),
                i <= self.entries@.len(),
                forall|j: int| 0 <= j < i ==> key_of(self.entries@[j].0) != key_of(*label),
            decreases self.entries@.len() - i,
        {
            if same_labels(&self.entries[i].0, label) {
                return Some(i);
            }
            i = i + 1;
        }
        None
    }

    /// The value for `label`, if the family holds one.
    pub fn get(&self, label: &LabelSet) -> (r: Option<i64>)
        requires
            self.wf(),
        ensures
            match r {
                Some(v) => self@.contains_key(key_of(*label)) && self@[key_of(*label)] == v as int,
                None => !self@.contains_key(key_of(*label)),
            },
    {
        match self.find(label) {
            Some(i) => Some(self.entries[i].1),
            None => None,
        }
    }

    /// Sets the value for `label`, creating the entry where there is none.
    pub fn set(&mut self, label: &LabelSet, v: i64)
        requires
            old(self).wf(),
        ensures
            final(self).wf(),
            final(self)@ == old(self)@.insert(key_of(*label), v as int),
    {
        let ghost k = key_of(*label);
        match self.find(label) {
            Some(i) => {
                let l = clone_labels(&self.entries[i].0);
                let ghost before = self.entries@;
                self.entries.set(i, (l, v));
                self.contents = Ghost(self.contents@.insert(k, v as int));
                assert forall|j: int| 0 <= j < self.entries@.len() implies key_of(
                    self.entries@[j].0,
                ) == key_of(before[j].0) by {
                    if j == i as int {
                        assert(self.entries@[j].0 == l);
                    } else {
                        assert(self.entries@[j] == before[j]);
                    }
                }
                assert forall|k2: LabelKey| #[trigger]
                    self.contents@.contains_key(k2) implies exists|j: int|
                    0 <= j < self.entries@.len() && key_of(self.entries@[j].0) == k2 by {
                    if k2 == k {
                        assert(key_of(self.entries@[i as int].0) == k2);
                    } else {
                        let j = choose|j: int|
                            0 <= j < before.len() && key_of(before[j].0) == k2;
                        assert(key_of(self.entries@[j].0) == k2);
                    }
                }
            },
            None => {
                let ghost before = self.entries@;
                let l = clone_labels(label);
                self.entries.push((l, v));
                self.contents = Ghost(self.contents@.insert(k, v as int));
                assert forall|j: int| 0 <= j < before.len() implies key_of(
                    self.entries@[j].0,
                ) != k by {
                    assert(self.entries@[j] == before[j]);
                    assert(self.contents@.contains_key(key_of(before[j].0)));
                }
                assert forall|k2: LabelKey| #[trigger]
                    self.contents@.contains_key(k2) implies exists|j: int|
                    0 <= j < self.entries@.len() && key_of(self.entries@[j].0) == k2 by {
                    if k2 == k {
                        assert(key_of(self.entries@[before.len() as int].0) == k2);
                    } else {
                        let j = choose|j: int|
                            0 <= j < before.len() && key_of(before[j].0) == k2;
                        assert(self.entries@[j] == before[j]);
                    }
                }
            },
        }
    }

    /// The value for `label`, after creating a zero-valued entry where there
    /// is none.
    pub fn get_or_create(&mut self, label: &LabelSet) -> (r: i64)
        requires
            old(self).wf(),
        ensures
            final(self).wf(),
            old(self)@.contains_key(key_of(*label)) ==> final(self)@ == old(self)@ && r as int
                == old(self)@[key_of(*label)],
            !old(self)@.contains_key(key_of(*label)) ==> final(self)@ == old(self)@.insert(
                key_of(*label),
                0,
            ) && r == 0,
    {
        match self.get(label) {
            Some(v) => v,
            None => {
                self.set(label, 0);
                0
            },
        }
    }

    /// Adds one to the value for `label`, starting from zero where there is no
    /// entry; a value at the largest `i64` stays there.
    pub fn inc(&mut self, label: &LabelSet)
        requires
            old(self).wf(),
        ensures
            final(self).wf(),
            final(self)@ == old(self)@.insert(key_of(*label), incremented(old(self)@, key_of(*label))),
    {
        let v = self.get_or_create(label);
        if v < i64::MAX {
            self.set(label, v + 1);
        } else {
            self.set(label, v);
        }
    }

    /// Removes the entry for `label`; whether there was one.
    pub fn remove(&mut self, label: &LabelSet) -> (r: bool)
        requires
            old(self).wf(),
        ensures
            final(self).wf(),
            final(self)@ == old(self)@.remove(key_of(*label)),
            r == old(self)@.contains_key(key_of(*label)),
    {
        let ghost k = key_of(*label);
        match self.find(label) {
            Some(i) => {
                let ghost before = self.entries@;
                self.entries.remove(i);
                self.contents = Ghost(self.contents@.remove(k));
                assert forall|j: int| 0 <= j < self.entries@.len() implies #[trigger]
                    self.entries@[j] == (if j < i { before[j] } else { before[j + 1] }) by {}
                assert forall|j: int| 0 <= j < self.entries@.len() implies key_of(
                    self.entries@[j].0,
                ) != k by {
                    if j < i {
                        assert(self.entries@[j] == before[j]);
                    } else {
                        assert(self.entries@[j] == before[j + 1]);
                    }
                }
                assert forall|k2: LabelKey| #[trigger]
                    self.contents@.contains_key(k2) implies exists|j: int|
                    0 <= j < self.entries@.len() && key_of(self.entries@[j].0) == k2 by {
                    let j = choose|j: int| 0 <= j < before.len() && key_of(before[j].0) == k2;
                    if j < i {
                        assert(self.entries@[j] == before[j]);
                    } else {
                        assert(j != i);
                        assert(self.entries@[j - 1] == before[j]);
                    }
                }
                assert forall|a: int, b: int|
                    0 <= a < self.entries@.len() && 0 <= b < self.entries@.len() && key_of(
                        #[trigger] self.entries@[a].0,
                    ) == key_of(#[trigger] self.entries@[b].0) implies a == b by {
                    let a2 = if a < i { a } else { a + 1 };
                    let b2 = if b < i { b } else { b + 1 };
                    assert(self.entries@[a] == before[a2]);
                    assert(self.entries@[b] == before[b2]);
                }
                true
            },
            None => {
                assert(self.contents@.remove(k) =~= self.contents@);
                false
            },
        }
    }

    /// Removes every entry.
    pub fn clear(&mut self)
        requires
            old(self).wf(),
        ensures
            final(self).wf(),
            final(self)@ == Map::<LabelKey, int>::empty(),
    {
        self.entries = Vec::new();
        self.contents = Ghost(Map::empty());
    }

    /// The samples of the family, each label-set with its value.
    pub fn samples(&self) -> (r: &Vec<(LabelSet, i64)>)
        requires
            self.wf(),
        ensures
            forall|i: int|
                0 <= i < r@.len() ==> self@.contains_key(#[trigger] key_of(r@[i].0)) && self@[key_of(
                    r@[i].0,
                )] == r@[i].1 as int,
            forall|k: LabelKey| #[trigger]
                self@.contains_key(k) ==> exists|i: int| 0 <= i < r@.len() && key_of(r@[i].0) == k,
    {
        let r = &self.entries;
        assert forall|i: int| 0 <= i < r@.len() implies self@.contains_key(
            #[trigger] key_of(r@[i].0),
        ) && self@[key_of(r@[i].0)] == r@[i].1 as int by {
            assert(r@[i] == self.entries@[i]);
        }
        r
    }
}

/// A family of gauges whose values are times or durations, in whole
/// microseconds.
pub type GaugeF = Family;

/// The value that `inc` leaves under `k`.
pub open spec fn incremented(m: Map<LabelKey, int>, k: LabelKey) -> int {
    if !m.contains_key(k) {
        1
    } else if m[k] < i64::MAX {
        m[k] + 1
    } else {
        m[k]
    }
}

} // verus!

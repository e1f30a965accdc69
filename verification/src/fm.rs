//! Typed frontmatter: a mapping from string keys to typed values.
//!
//! The mathematical model of a frontmatter is a `Map<Seq<char>, FmVal>`;
//! the executable form keeps the entries in insertion order with unique
//! keys. Merging overlays the right-hand entries key-wise, which is
//! idempotent at the model level.

use vstd::prelude::*;

use crate::text::str_eq;

verus! {

/// One checkable item of a checklist value: a stable id, the displayed
/// text, and whether it is checked.
pub struct ChecklistItem {
    pub id: String,
    pub text: String,
    pub on: bool,
}

impl ChecklistItem {
    /// The item as a mathematical value.
    pub open spec fn model(self) -> (Seq<char>, Seq<char>, bool) {
        (self.id@, self.text@, self.on)
    }

    /// A copy with the same model.
    pub fn dup(&self) -> (r: ChecklistItem)
        ensures
            r.model() == self.model(),
    {
        ChecklistItem { id: self.id.clone(), text: self.text.clone(), on: self.on }
    }
}

/// The result of the external analysis capability: three free-form texts.
pub struct AnalysisData {
    pub summary: String,
    pub suggestion: String,
    pub reasoning: String,
}

impl AnalysisData {
    /// The analysis as a mathematical value.
    pub open spec fn model(self) -> (Seq<char>, Seq<char>, Seq<char>) {
        (self.summary@, self.suggestion@, self.reasoning@)
    }

    /// A copy with the same model.
    pub fn dup(&self) -> (r: AnalysisData)
        ensures
            r.model() == self.model(),
    {
        AnalysisData {
            summary: self.summary.clone(),
            suggestion: self.suggestion.clone(),
            reasoning: self.reasoning.clone(),
        }
    }
}

/// A frontmatter value.
pub enum FmValue {
    /// An explicit absence: a key written with no value, as a clearing
    /// overwrite.
    Null,
    /// Free-form text.
    Text(String),
    /// An unsigned number.
    Num(u64),
    /// A boolean flag.
    Flag(bool),
    /// An ordered list of checkable items.
    Items(Vec<ChecklistItem>),
    /// An analysis triple.
    Analysis(AnalysisData),
}

/// The mathematical form of a frontmatter value.
pub enum FmVal {
    Null,
    Text(Seq<char>),
    Num(u64),
    Flag(bool),
    Items(Seq<(Seq<char>, Seq<char>, bool)>),
    Analysis(Seq<char>, Seq<char>, Seq<char>),
}

/// The models of a vector of checklist items, in order.
pub open spec fn items_model(s: Seq<ChecklistItem>) -> Seq<(Seq<char>, Seq<char>, bool)> {
    s.map_values(|it: ChecklistItem| it.model())
}

/// The models of an entry list, in order.
pub open spec fn entries_model(s: Seq<(String, FmValue)>) -> Seq<(Seq<char>, FmVal)> {
    s.map_values(|e: (String, FmValue)| (e.0@, e.1.model()))
}

impl FmValue {
    /// The value as a mathematical value.
    pub open spec fn model(self) -> FmVal {
        match self {
            FmValue::Null => FmVal::Null,
            FmValue::Text(s) => FmVal::Text(s@),
            FmValue::Num(n) => FmVal::Num(n),
            FmValue::Flag(b) => FmVal::Flag(b),
            FmValue::Items(v) => FmVal::Items(items_model(v@)),
            FmValue::Analysis(a) => FmVal::Analysis(a.summary@, a.suggestion@, a.reasoning@),
        }
    }

    /// A copy with the same model.
    pub fn dup(&self) -> (r: FmValue)
        ensures
            r.model() == self.model(),
    {
        match self {
            FmValue::Null => FmValue::Null,
            FmValue::Text(s) => FmValue::Text(s.clone()),
            FmValue::Num(n) => FmValue::Num(*n),
            FmValue::Flag(b) => FmValue::Flag(*b),
            FmValue::Items(v) => FmValue::Items(dup_items(v)),
            FmValue::Analysis(a) => FmValue::Analysis(a.dup()),
        }
    }
}

/// A copy of an item vector with the same model, item by item.
pub fn dup_items(v: &Vec<ChecklistItem>) -> (r: Vec<ChecklistItem>)
    ensures
        items_model(r@) == items_model(v@),
{
    let mut out: Vec<ChecklistItem> = Vec::new();
    let mut i: usize = 0;
    while i < v.len()
        invariant
            0 <= i <= v@.len(),
            items_model(out@) == items_model(v@.subrange(0, i as int)),
        decreases v@.len() - i,
    {
        let ghost pre = out@;
        out.push(v[i].dup());
        proof {
            let ghost a = items_model(out@);
            let ghost b = items_model(v@.subrange(0, i + 1));
            assert(items_model(pre).len() == pre.len());
            assert(items_model(v@.subrange(0, i as int)).len() == i);
            assert(a.len() == b.len());
            assert forall|j: int| 0 <= j < a.len() implies a[j] == b[j] by {
                if j < i {
                    assert(out@[j] == pre[j]);
                    assert(items_model(pre)[j] == pre[j].model());
                    assert(v@.subrange(0, i as int)[j] == v@[j]);
                    assert(v@.subrange(0, i + 1)[j] == v@[j]);
                } else {
                    assert(out@[j].model() == v@[i as int].model());
                }
            }
            assert(a =~= b);
        }
        i = i + 1;
    }
    proof {
        assert(v@.subrange(0, v@.len() as int) =~= v@);
    }
    out
}

/// The model of an entry list: later entries overwrite earlier ones.
pub open spec fn alist_model(s: Seq<(Seq<char>, FmVal)>) -> Map<Seq<char>, FmVal>
    decreases s.len(),
{
    if s.len() == 0 {
        Map::empty()
    } else {
        alist_model(s.drop_last()).insert(s.last().0, s.last().1)
    }
}

/// No key occurs twice.
pub open spec fn distinct_keys(s: Seq<(Seq<char>, FmVal)>) -> bool {
    forall|i: int, j: int| 0 <= i < j < s.len() ==> s[i].0 != s[j].0
}

/// A key is in the model exactly when some entry carries it.
pub proof fn lemma_alist_contains(s: Seq<(Seq<char>, FmVal)>, k: Seq<char>)
    ensures
        alist_model(s).contains_key(k) <==> exists|i: int| 0 <= i < s.len() && s[i].0 == k,
    decreases s.len(),
{
    if s.len() > 0 {
        lemma_alist_contains(s.drop_last(), k);
        if s.last().0 != k && alist_model(s).contains_key(k) {
            let i = choose|i: int| 0 <= i < s.drop_last().len() && s.drop_last()[i].0 == k;
            assert(s[i].0 == k);
        }
        if exists|i: int| 0 <= i < s.len() && s[i].0 == k {
            let i = choose|i: int| 0 <= i < s.len() && s[i].0 == k;
            if i < s.len() - 1 {
                assert(s.drop_last()[i].0 == k);
            }
        }
    }
}

/// With distinct keys, the model maps each entry's key to its value.
pub proof fn lemma_alist_get(s: Seq<(Seq<char>, FmVal)>, i: int)
    requires
        distinct_keys(s),
        0 <= i < s.len(),
    ensures
        alist_model(s).contains_key(s[i].0),
        alist_model(s)[s[i].0] == s[i].1,
    decreases s.len(),
{
    if i == s.len() - 1 {
    } else {
        lemma_alist_get(s.drop_last(), i);
        assert(s.drop_last()[i] == s[i]);
        assert(s.last().0 != s[i].0);
    }
}

/// Appending a fresh entry inserts it into the model.
pub proof fn lemma_alist_push(s: Seq<(Seq<char>, FmVal)>, k: Seq<char>, v: FmVal)
    ensures
        alist_model(s.push((k, v))) == alist_model(s).insert(k, v),
{
    assert(s.push((k, v)).drop_last() =~= s);
    assert(s.push((k, v)).last() == (k, v));
}

/// With distinct keys, overwriting the entry that carries a key updates
/// the model at that key alone.
pub proof fn lemma_alist_update(s: Seq<(Seq<char>, FmVal)>, i: int, v: FmVal)
    requires
        distinct_keys(s),
        0 <= i < s.len(),
    ensures
        alist_model(s.update(i, (s[i].0, v))) == alist_model(s).insert(s[i].0, v),
    decreases s.len(),
{
    let k = s[i].0;
    let t = s.update(i, (k, v));
    if i == s.len() - 1 {
        assert(t.drop_last() =~= s.drop_last());
        assert(alist_model(t) == alist_model(s.drop_last()).insert(k, v));
        assert(alist_model(s).insert(k, v) =~= alist_model(s.drop_last()).insert(k, v));
    } else {
        assert(t.drop_last() =~= s.drop_last().update(i, (k, v)));
        assert(s.drop_last()[i] == s[i]);
        lemma_alist_update(s.drop_last(), i, v);
        assert(s.last().0 != k);
        assert(t.last() == s.last());
        assert(alist_model(t) == alist_model(s.drop_last()).insert(k, v).insert(
            s.last().0,
            s.last().1,
        ));
        assert(alist_model(s.drop_last()).insert(k, v).insert(s.last().0, s.last().1)
            =~= alist_model(s.drop_last()).insert(s.last().0, s.last().1).insert(k, v));
    }
}

/// A frontmatter: an ordered list of entries with unique keys, modelled
/// as a finite map.
pub struct Fm {
    pub entries: Vec<(String, FmValue)>,
}

impl Fm {
    /// The entries as mathematical pairs.
    pub open spec fn entry_seq(self) -> Seq<(Seq<char>, FmVal)> {
        entries_model(self.entries@)
    }

    /// The mapping the frontmatter stands for.
    pub open spec fn model(self) -> Map<Seq<char>, FmVal> {
        alist_model(self.entry_seq())
    }

    /// Well-formed: no key occurs twice.
    pub open spec fn wf(self) -> bool {
        distinct_keys(self.entry_seq())
    }

    /// An empty frontmatter.
    pub fn new() -> (r: Fm)
        ensures
            r.wf(),
            r.model() == Map::<Seq<char>, FmVal>::empty(),
    {
        Fm { entries: Vec::new() }
    }

    /// The number of entries.
    pub fn len(&self) -> (r: usize)
        ensures
            r == self.entry_seq().len(),
    {
        self.entries.len()
    }

    /// The entry at an index, for iteration in insertion order.
    pub fn entry_at(&self, i: usize) -> (r: (&String, &FmValue))
        requires
            i < self.entry_seq().len(),
        ensures
            (r.0@, r.1.model()) == self.entry_seq()[i as int],
    {
        let e = &self.entries[i];
        (&e.0, &e.1)
    }

    /// The index of the entry carrying a key, if any.
    fn find_key(&self, key: &str) -> (r: Option<usize>)
        ensures
            match r {
                Some(i) => i < self.entry_seq().len() && self.entry_seq()[i as int].0 == key@,
                None => forall|i: int|
                    0 <= i < self.entry_seq().len() ==> self.entry_seq()[i].0 != key@,
            },
    {
        let mut i: usize = 0;
        while i < self.entries.len()
            invariant
                0 <= i <= self.entry_seq().len(),
                self.entry_seq().len() == self.entries@.len(),
                forall|j: int| 0 <= j < i ==> self.entry_seq()[j].0 != key@,
            decreases self.entries@.len() - i,
        {
            if str_eq(self.entries[i].0.as_str(), key) {
                return Some(i);
            }
            i = i + 1;
        }
        None
    }

    /// Look a key up.
    pub fn get(&self, key: &str) -> (r: Option<&FmValue>)
        requires
            self.wf(),
        ensures
            match r {
                Some(v) => self.model().contains_key(key@) && self.model()[key@] == v.model(),
                None => !self.model().contains_key(key@),
            },
    {
        proof {
            lemma_alist_contains(self.entry_seq(), key@);
        }
        match self.find_key(key) {
            Some(i) => {
                proof {
                    lemma_alist_get(self.entry_seq(), i as int);
                }
                Some(&self.entries[i].1)
            },
            None => None,
        }
    }

    /// Bind a key to a value, overwriting any earlier binding.
    pub fn set(&mut self, key: String, value: FmValue)
        requires
            old(self).wf(),
        ensures
            final(self).wf(),
            final(self).model() == old(self).model().insert(key@, value.model()),
    {
        let ghost s0 = self.entry_seq();
        match self.find_key(key.as_str()) {
            Some(i) => {
                self.entries.set(i, (key, value));
                proof {
                    assert(self.entry_seq() =~= s0.update(i as int, (key@, value.model())));
                    lemma_alist_update(s0, i as int, value.model());
                }
            },
            None => {
                self.entries.push((key, value));
                proof {
                    assert(self.entry_seq() =~= s0.push((key@, value.model())));
                    lemma_alist_push(s0, key@, value.model());
                }
            },
        }
    }

    /// A copy with the same model and the same entry order.
    pub fn dup(&self) -> (r: Fm)
        ensures
            r.entry_seq() == self.entry_seq(),
            r.model() == self.model(),
            r.wf() == self.wf(),
    {
        let mut out: Vec<(String, FmValue)> = Vec::new();
        let mut i: usize = 0;
        while i < self.entries.len()
            invariant
                0 <= i <= self.entries@.len(),
                entries_model(out@) == entries_model(self.entries@.subrange(0, i as int)),
            decreases self.entries@.len() - i,
        {
            let ghost pre = out@;
            let e = &self.entries[i];
            out.push((e.0.clone(), e.1.dup()));
            proof {
                let ghost a = entries_model(out@);
                let ghost b = entries_model(self.entries@.subrange(0, i + 1));
                assert(entries_model(pre).len() == pre.len());
                assert(entries_model(self.entries@.subrange(0, i as int)).len() == i);
                assert(a.len() == b.len());
                assert forall|j: int| 0 <= j < a.len() implies a[j] == b[j] by {
                    if j < i {
                        assert(out@[j] == pre[j]);
                        assert(entries_model(pre)[j] == (pre[j].0@, pre[j].1.model()));
                        assert(self.entries@.subrange(0, i as int)[j] == self.entries@[j]);
                        assert(self.entries@.subrange(0, i + 1)[j] == self.entries@[j]);
                    } else {
                        assert(out@[j].1.model() == self.entries@[i as int].1.model());
                    }
                }
                assert(a =~= b);
            }
            i = i + 1;
        }
        proof {
            assert(self.entries@.subrange(0, self.entries@.len() as int) =~= self.entries@);
        }
        let r = Fm { entries: out };
        proof {
            assert(r.entry_seq() == self.entry_seq());
        }
        r
    }

    /// Overlay another frontmatter's entries onto this one, key-wise;
    /// keys absent from the overlay keep their values.
    pub fn merge_from(&mut self, other: &Fm)
        requires
            old(self).wf(),
        ensures
            final(self).wf(),
            final(self).model() == old(self).model().union_prefer_right(other.model()),
    {
        let ghost m0 = self.model();
        let mut i: usize = 0;
        while i < other.entries.len()
            invariant
                other.entry_seq().len() == other.entries@.len(),
                0 <= i <= other.entries@.len(),
                self.wf(),
                self.model() == m0.union_prefer_right(
                    alist_model(other.entry_seq().subrange(0, i as int)),
                ),
            decreases other.entries@.len() - i,
        {
            let e = &other.entries[i];
            let ghost pre = alist_model(other.entry_seq().subrange(0, i as int));
            self.set(e.0.clone(), e.1.dup());
            proof {
                let sub1 = other.entry_seq().subrange(0, i + 1 as int);
                assert(sub1.drop_last() =~= other.entry_seq().subrange(0, i as int));
                assert(sub1.last() == other.entry_seq()[i as int]);
                assert(m0.union_prefer_right(pre).insert(
                    other.entry_seq()[i as int].0,
                    other.entry_seq()[i as int].1,
                ) =~= m0.union_prefer_right(alist_model(sub1)));
            }
            i = i + 1;
        }
        proof {
            assert(other.entry_seq().subrange(0, other.entry_seq().len() as int)
                =~= other.entry_seq());
        }
    }
}

/// Key-wise overlay is idempotent: overlaying the same entries twice
/// leaves the same mapping as overlaying them once.
pub proof fn lemma_merge_idempotent(base: Map<Seq<char>, FmVal>, overlay: Map<Seq<char>, FmVal>)
    ensures
        base.union_prefer_right(overlay).union_prefer_right(overlay) == base.union_prefer_right(
            overlay,
        ),
{
    assert(base.union_prefer_right(overlay).union_prefer_right(overlay) =~= base.union_prefer_right(
        overlay,
    ));
}

} // verus!

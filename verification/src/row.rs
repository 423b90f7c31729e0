use vstd::prelude::*;
use crate::schema::Value;

verus! {

/// The order of texts by their characters, as `String` orders them: the
/// first differing character decides, and a proper prefix comes first.
pub open spec fn text_less(a: Seq<char>, b: Seq<char>) -> bool
    decreases a.len(),
{
    if a.len() == 0 {
        b.len() > 0
    } else if b.len() == 0 {
        false
    } else if a[0] != b[0] {
        (a[0] as int) < (b[0] as int)
    } else {
        text_less(a.drop_first(), b.drop_first())
    }
}

/// No text comes before itself.
pub proof fn lemma_text_less_irreflexive(a: Seq<char>)
    ensures
        !text_less(a, a),
    decreases a.len(),
{
    if a.len() > 0 {
        lemma_text_less_irreflexive(a.drop_first());
    }
}

/// The order of texts is transitive.
pub proof fn lemma_text_less_transitive(a: Seq<char>, b: Seq<char>, c: Seq<char>)
    requires
        text_less(a, b),
        text_less(b, c),
    ensures
        text_less(a, c),
    decreases a.len(),
{
    if a.len() > 0 && b.len() > 0 && c.len() > 0 {
        if a[0] == b[0] && b[0] == c[0] {
            lemma_text_less_transitive(a.drop_first(), b.drop_first(), c.drop_first());
        }
    }
}

/// Two different texts are ordered one way or the other.
pub proof fn lemma_text_less_total(a: Seq<char>, b: Seq<char>)
    requires
        a != b,
    ensures
        text_less(a, b) || text_less(b, a),
    decreases a.len(),
{
    if a.len() > 0 && b.len() > 0 && a[0] != b[0] {
        assert((a[0] as int) != (b[0] as int));
    } else if a.len() > 0 && b.len() > 0 && a[0] == b[0] {
        if a.drop_first() == b.drop_first() {
            assert(a =~= seq![a[0]] + a.drop_first());
            assert(b =~= seq![b[0]] + b.drop_first());
        }
        lemma_text_less_total(a.drop_first(), b.drop_first());
    } else if a.len() == 0 && b.len() == 0 {
        assert(a =~= b);
    }
}

/// A text that comes before another is not after it.
pub proof fn lemma_text_less_asymmetric(a: Seq<char>, b: Seq<char>)
    requires
        text_less(a, b),
    ensures
        !text_less(b, a),
{
    if text_less(b, a) {
        lemma_text_less_transitive(a, b, a);
        lemma_text_less_irreflexive(a);
    }
}

/// Whether `a` comes before `b` in the order of texts.
pub fn text_lt(a: &String, b: &String) -> (r: bool)
    ensures
        r == text_less(a@, b@),
{
    let sa = a.as_str();
    let sb = b.as_str();
    let la = sa.unicode_len();
    let lb = sb.unicode_len();
    let mut i: usize = 0;
    assert(a@.skip(0) =~= a@);
    assert(b@.skip(0) =~= b@);
    while i < la && i < lb
        invariant
            i <= la,
            i <= lb,
            la == a@.len(),
            lb == b@.len(),
            sa@ == a@,
            sb@ == b@,
            text_less(a@, b@) == text_less(a@.skip(i as int), b@.skip(i as int)),
        decreases la - i,
    {
        let ca = sa.get_char(i);
        let cb = sb.get_char(i);
        let ghost ra = a@.skip(i as int);
        let ghost rb = b@.skip(i as int);
        assert(ra[0] == ca && rb[0] == cb);
        if ca != cb {
            return (ca as u32) < (cb as u32);
        }
        assert(ra.drop_first() =~= a@.skip(i + 1));
        assert(rb.drop_first() =~= b@.skip(i + 1));
        i = i + 1;
    }
    la < lb
}

/// Names in strictly increasing order.
pub open spec fn increasing(names: Seq<Seq<char>>) -> bool {
    forall|j: int, k: int| 0 <= j < k < names.len() ==> text_less(#[trigger] names[j], #[trigger] names[k])
}

/// `names` lists the keys of `m`, each once, in increasing order.
pub open spec fn lists_keys(names: Seq<Seq<char>>, m: Map<Seq<char>, Value>) -> bool {
    &&& increasing(names)
    &&& forall|i: int| 0 <= i < names.len() ==> m.contains_key(#[trigger] names[i])
    &&& forall|k: Seq<char>| #[trigger] m.contains_key(k) ==> exists|i: int|
        0 <= i < names.len() && names[i] == k
}

/// The map that a list of entries holds, a later entry replacing an earlier
/// one of the same name.
pub open spec fn entries_map(s: Seq<(String, Value)>) -> Map<Seq<char>, Value>
    decreases s.len(),
{
    if s.len() == 0 {
        Map::empty()
    } else {
        entries_map(s.drop_last()).insert(s.last().0@, s.last().1)
    }
}

/// The names of a list of entries.
pub open spec fn entry_names(s: Seq<(String, Value)>) -> Seq<Seq<char>> {
    s.map_values(|e: (String, Value)| e.0@)
}

/// The entries whose names increase hold each name once, with its value.
proof fn lemma_entries_map(s: Seq<(String, Value)>)
    requires
        increasing(entry_names(s)),
    ensures
        forall|i: int| 0 <= i < s.len() ==> #[trigger] entries_map(s).contains_key(s[i].0@)
            && entries_map(s)[s[i].0@] == s[i].1,
        forall|k: Seq<char>| #[trigger] entries_map(s).contains_key(k) ==> exists|i: int|
            0 <= i < s.len() && s[i].0@ == k,
    decreases s.len(),
{
    if s.len() > 0 {
        let init = s.drop_last();
        assert(entries_map(s) == entries_map(init).insert(s.last().0@, s.last().1));
        assert(entry_names(init) =~= entry_names(s).drop_last());
        lemma_entries_map(init);
        assert forall|i: int| 0 <= i < s.len() implies #[trigger] entries_map(s).contains_key(s[i].0@)
            && entries_map(s)[s[i].0@] == s[i].1 by {
            if i < s.len() - 1 {
                assert(entry_names(s)[i] == s[i].0@);
                assert(entry_names(s)[s.len() - 1] == s.last().0@);
                assert(text_less(s[i].0@, s.last().0@));
                lemma_text_less_irreflexive(s[i].0@);
                assert(init[i] == s[i]);
            }
        }
        assert forall|k: Seq<char>| #[trigger] entries_map(s).contains_key(k) implies exists|i: int|
            0 <= i < s.len() && s[i].0@ == k by {
            if k != s.last().0@ {
                let i = choose|i: int| 0 <= i < init.len() && init[i].0@ == k;
                assert(s[i] == init[i]);
            }
        }
    }
}

/// A row: values under column names, kept in increasing order of names.
#[derive(Debug)]
pub struct RowMap {
    entries: Vec<(String, Value)>,
}

impl RowMap {
    #[verifier::type_invariant]
    spec fn names_increase(self) -> bool {
        increasing(entry_names(self.entries@))
    }

    /// The names of the row, in increasing order.
    pub closed spec fn names(self) -> Seq<Seq<char>> {
        entry_names(self.entries@)
    }

    /// The values of the row, in the order of their names.
    pub closed spec fn values_in_order(self) -> Seq<Value> {
        self.entries@.map_values(|e: (String, Value)| e.1)
    }
}

impl View for RowMap {
    type V = Map<Seq<char>, Value>;

    closed spec fn view(&self) -> Map<Seq<char>, Value> {
        entries_map(self.entries@)
    }
}

impl RowMap {
    /// The row with no value.
    pub fn new() -> (r: Self)
        ensures
            r@ == Map::<Seq<char>, Value>::empty(),
            r.names() == Seq::<Seq<char>>::empty(),
    {
        let r = RowMap { entries: Vec::new() };
        assert(entry_names(r.entries@) =~= Seq::<Seq<char>>::empty());
        r
    }

    /// The number of values of the row.
    pub fn len(&self) -> (r: usize)
        ensures
            r == self.names().len(),
    {
        self.entries.len()
    }

    /// Puts `value` under `name`, replacing the value that was there.
    #[verifier::spinoff_prover]
    pub fn insert(&mut self, name: String, value: Value)
        ensures
            final(self)@ == old(self)@.insert(name@, value),
    {
        proof {
            use_type_invariant(&*self);
            lemma_entries_map(self.entries@);
        }
        let mut entries: Vec<(String, Value)> = Vec::new();
        std::mem::swap(&mut entries, &mut self.entries);
        let ghost s = entries@;
        let ghost names = entry_names(s);
        let mut i: usize = 0;
        while i < entries.len()
            invariant
                i <= entries.len(),
                s == entries@,
                names == entry_names(s),
                forall|j: int| 0 <= j < i ==> text_less(#[trigger] names[j], name@),
            ensures
                i <= entries.len(),
                forall|j: int| 0 <= j < i ==> text_less(#[trigger] names[j], name@),
                i < entries.len() ==> !text_less(names[i as int], name@),
            decreases entries.len() - i,
        {
            assert(names[i as int] == entries@[i as int].0@);
            if !text_lt(&entries[i].0, &name) {
                break;
            }
            i = i + 1;
        }
        let ghost m0 = entries_map(s);
        if i < entries.len() && entries[i].0 == name {
            entries.set(i, (name, value));
            let ghost s2 = entries@;
            proof {
                assert(entry_names(s2) =~= names);
                lemma_entries_map(s2);
                assert(entries_map(s2) =~= m0.insert(name@, value)) by {
                    assert forall|k: Seq<char>| #[trigger] entries_map(s2).contains_key(k) implies m0.insert(
                        name@,
                        value,
                    ).contains_key(k) by {
                        let j = choose|j: int| 0 <= j < s2.len() && s2[j].0@ == k;
                        if j != i {
                            assert(s2[j] == s[j]);
                        }
                    }
                    assert forall|k: Seq<char>| #[trigger] m0.insert(name@, value).contains_key(k) implies entries_map(
                        s2,
                    ).contains_key(k) && entries_map(s2)[k] == m0.insert(name@, value)[k] by {
                        if k != name@ {
                            let j = choose|j: int| 0 <= j < s.len() && s[j].0@ == k;
                            assert(j != i);
                            assert(s2[j] == s[j]);
                        } else {
                            assert(s2[i as int].0@ == name@);
                        }
                    }
                }
            }
        } else {
            let ghost n0 = name@;
            proof {
                if i < entries.len() {
                    assert(names[i as int] == s[i as int].0@);
                    assert(!text_less(names[i as int], n0));
                    lemma_text_less_total(names[i as int], n0);
                }
            }
            entries.insert(i, (name, value));
            let ghost s2 = entries@;
            proof {
                let names2 = entry_names(s2);
                assert(names2 =~= names.insert(i as int, n0));
                assert forall|j: int, k: int| 0 <= j < k < names2.len() implies text_less(
                    #[trigger] names2[j],
                    #[trigger] names2[k],
                ) by {
                    if k == i {
                        assert(names2[j] == names[j]);
                    } else if j == i {
                        assert(names2[k] == names[k - 1]);
                        if k - 1 > i {
                            lemma_text_less_transitive(n0, names[i as int], names[k - 1]);
                        }
                    } else if k < i {
                        assert(names2[j] == names[j] && names2[k] == names[k]);
                    } else if j < i {
                        assert(names2[j] == names[j] && names2[k] == names[k - 1]);
                    } else {
                        assert(names2[j] == names[j - 1] && names2[k] == names[k - 1]);
                    }
                }
                lemma_entries_map(s2);
                assert(entries_map(s2) =~= m0.insert(n0, value)) by {
                    assert forall|k: Seq<char>| #[trigger] entries_map(s2).contains_key(k) implies m0.insert(
                        n0,
                        value,
                    ).contains_key(k) by {
                        let j = choose|j: int| 0 <= j < s2.len() && s2[j].0@ == k;
                        if j < i {
                            assert(s2[j] == s[j]);
                        } else if j > i {
                            assert(s2[j] == s[j - 1]);
                        }
                    }
                    assert forall|k: Seq<char>| #[trigger] m0.insert(n0, value).contains_key(k) implies entries_map(
                        s2,
                    ).contains_key(k) && entries_map(s2)[k] == m0.insert(n0, value)[k] by {
                        if k != n0 {
                            lemma_entries_map(s);
                            let j = choose|j: int| 0 <= j < s.len() && s[j].0@ == k;
                            assert(entries_map(s)[s[j].0@] == s[j].1);
                            if j < i {
                                assert(s2[j] == s[j]);
                                assert(entries_map(s2).contains_key(s2[j].0@));
                            } else {
                                assert(s2[j + 1] == s[j]);
                                assert(entries_map(s2).contains_key(s2[j + 1].0@));
                            }
                        } else {
                            assert(s2[i as int].0@ == n0);
                        }
                    }
                }
            }
        }
        self.entries = entries;
    }

    /// The value under `name`, if any.
    pub fn get(&self, name: &String) -> (r: Option<&Value>)
        ensures
            match r {
                Some(v) => self@.contains_key(name@) && *v == self@[name@],
                None => !self@.contains_key(name@),
            },
    {
        proof {
            use_type_invariant(self);
            lemma_entries_map(self.entries@);
        }
        let mut i: usize = 0;
        while i < self.entries.len()
            invariant
                i <= self.entries.len(),
                forall|j: int| 0 <= j < i ==> (#[trigger] self.entries@[j]).0@ != name@,
            decreases self.entries.len() - i,
        {
            if self.entries[i].0 == *name {
                proof {
                    use_type_invariant(self);
                    lemma_entries_map(self.entries@);
                    assert(self@.contains_key(self.entries@[i as int].0@));
                }
                return Some(&self.entries[i].1);
            }
            i = i + 1;
        }
        None
    }

    /// The names of the row, in increasing order.
    pub fn keys(&self) -> (r: Vec<String>)
        ensures
            r@.map_values(|x: String| x@) == self.names(),
            lists_keys(self.names(), self@),
    {
        proof {
            use_type_invariant(self);
            lemma_entries_map(self.entries@);
            let s = self.entries@;
            assert forall|i: int| 0 <= i < self.names().len() implies self@.contains_key(
                #[trigger] self.names()[i],
            ) by {
                assert(self.names()[i] == s[i].0@);
            }
            assert forall|k: Seq<char>| #[trigger] self@.contains_key(k) implies exists|i: int|
                0 <= i < self.names().len() && self.names()[i] == k by {
                let i = choose|i: int| 0 <= i < s.len() && s[i].0@ == k;
                assert(self.names()[i] == k);
            }
        }
        let mut out: Vec<String> = Vec::new();
        let mut i: usize = 0;
        while i < self.entries.len()
            invariant
                i <= self.entries.len(),
                out@.len() == i,
                forall|j: int| 0 <= j < i ==> (#[trigger] out@[j])@ == self.entries@[j].0@,
            decreases self.entries.len() - i,
        {
            out.push(self.entries[i].0.clone());
            i = i + 1;
        }
        assert(out@.map_values(|x: String| x@) =~= self.names());
        out
    }

    /// The values of the row, in the order of their names.
    pub fn values(&self) -> (r: Vec<Value>)
        ensures
            r@ == self.values_in_order(),
            r@.len() == self.names().len(),
            forall|i: int| 0 <= i < r@.len() ==> #[trigger] r@[i] == self@[self.names()[i]],
    {
        proof {
            use_type_invariant(self);
            lemma_entries_map(self.entries@);
        }
        let mut out: Vec<Value> = Vec::new();
        let mut i: usize = 0;
        while i < self.entries.len()
            invariant
                i <= self.entries.len(),
                out@.len() == i,
                forall|j: int| 0 <= j < i ==> #[trigger] out@[j] == self.entries@[j].1,
            decreases self.entries.len() - i,
        {
            out.push(self.entries[i].1.clone());
            i = i + 1;
        }
        assert(out@ =~= self.values_in_order());
        assert forall|i: int| 0 <= i < out@.len() implies #[trigger] out@[i] == self@[self.names()[i]] by {
            assert(self.names()[i] == self.entries@[i].0@);
            assert(self@.contains_key(self.entries@[i].0@));
        }
        out
    }
}

} // verus!

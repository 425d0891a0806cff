use vstd::prelude::*;
use vstd::string::*;
use crate::text::dec_digits;
use crate::text::lower_of;
use crate::text::lowercase;
use crate::text::u32_to_decimal;

verus! {

/// The string a lookup key is canonicalized to before the table sees it:
/// the empty string stands for the absent name.
pub open spec fn canon(s: Seq<char>) -> Seq<char> {
    if s.len() == 0 {
        "None"@
    } else {
        s
    }
}

/// The greatest index in `strs` whose lowercase form is `l`, or -1 when
/// none matches. The greatest wins because a later entry with the same
/// lowercase form overwrites the reverse mapping of an earlier one.
pub open spec fn latest_lower_match(strs: Seq<Seq<char>>, l: Seq<char>) -> int
    decreases strs.len(),
{
    if strs.len() == 0 {
        -1
    } else if lower_of(strs.last()) == l {
        strs.len() - 1
    } else {
        latest_lower_match(strs.drop_last(), l)
    }
}

/// The index `get_index` returns on a table holding `strs`: the latest
/// case-insensitive match if one exists, else the next free index.
pub open spec fn get_index_result(strs: Seq<Seq<char>>, s: Seq<char>) -> int {
    let m = latest_lower_match(strs, lower_of(canon(s)));
    if m >= 0 {
        m
    } else {
        strs.len() as int
    }
}

/// The table contents after `get_index`: unchanged on a hit, the
/// canonicalized string appended on a miss.
pub open spec fn get_index_table(strs: Seq<Seq<char>>, s: Seq<char>) -> Seq<Seq<char>> {
    if latest_lower_match(strs, lower_of(canon(s))) >= 0 {
        strs
    } else {
        strs.push(canon(s))
    }
}

pub proof fn lemma_latest_lower_match_in_range(strs: Seq<Seq<char>>, l: Seq<char>)
    ensures
        -1 <= latest_lower_match(strs, l) < strs.len(),
        latest_lower_match(strs, l) >= 0 ==> lower_of(strs[latest_lower_match(strs, l)]) == l,
    decreases strs.len(),
{
    if strs.len() > 0 && lower_of(strs.last()) != l {
        lemma_latest_lower_match_in_range(strs.drop_last(), l);
        assert(strs.drop_last().len() == strs.len() - 1);
        if latest_lower_match(strs.drop_last(), l) >= 0 {
            assert(strs.drop_last()[latest_lower_match(strs.drop_last(), l)] == strs[
                latest_lower_match(strs.drop_last(), l)
            ]);
        }
    }
}

pub proof fn lemma_latest_lower_match_found(strs: Seq<Seq<char>>, l: Seq<char>, i: int)
    requires
        0 <= i < strs.len(),
        lower_of(strs[i]) == l,
        forall|q: int| i < q < strs.len() ==> lower_of(#[trigger] strs[q]) != l,
    ensures
        latest_lower_match(strs, l) == i,
    decreases strs.len(),
{
    if i == strs.len() - 1 {
    } else {
        assert(lower_of(strs.last()) != l);
        assert(forall|q: int|
            i < q < strs.drop_last().len() ==> lower_of(#[trigger] strs.drop_last()[q]) != l);
        assert(strs.drop_last()[i] == strs[i]);
        lemma_latest_lower_match_found(strs.drop_last(), l, i);
    }
}

pub proof fn lemma_latest_lower_match_none(strs: Seq<Seq<char>>, l: Seq<char>)
    requires
        forall|q: int| 0 <= q < strs.len() ==> lower_of(#[trigger] strs[q]) != l,
    ensures
        latest_lower_match(strs, l) == -1,
    decreases strs.len(),
{
    if strs.len() > 0 {
        lemma_latest_lower_match_none(strs.drop_last(), l);
    }
}

/// The global, append-only, case-insensitively deduplicating table of
/// interned strings. Indices are dense, start at 0 and are never reused;
/// `was_changed` records whether an append happened since load.
pub struct L2GeneralStringTable {
    was_changed: bool,
    next_index: u32,
    inner: Vec<String>,
    lower: Vec<String>,
}

impl L2GeneralStringTable {
    /// The interned strings, in index order: the string with index `i`
    /// stands at position `i`.
    pub closed spec fn strings(&self) -> Seq<Seq<char>> {
        self.inner@.map_values(|s: String| s@)
    }

    /// Whether an append happened since the table was loaded or the flag
    /// was last cleared.
    pub closed spec fn changed(&self) -> bool {
        self.was_changed
    }

    /// The dirty flag, for the save decision.
    pub fn is_changed(&self) -> (r: bool)
        ensures
            r == self.changed(),
    {
        self.was_changed
    }

    /// Clears the dirty flag, as after a successful write of the table.
    pub fn clear_changed(&mut self)
        ensures
            final(self).wf() == old(self).wf(),
            final(self).strings() == old(self).strings(),
            !final(self).changed(),
    {
        self.was_changed = false;
    }

    /// The internal invariant: the counter equals the number of entries
    /// and the lowercase column mirrors the string column.
    pub closed spec fn wf(&self) -> bool {
        &&& self.next_index as nat == self.inner@.len()
        &&& self.lower@.len() == self.inner@.len()
        &&& forall|i: int|
            0 <= i < self.inner@.len() ==> self.lower@[i]@ == lower_of(
                #[trigger] self.inner@[i]@,
            )
    }

    /// An empty table, not marked changed.
    pub fn new() -> (r: Self)
        ensures
            r.wf(),
            r.strings() == Seq::<Seq<char>>::empty(),
            !r.changed(),
    {
        let r = L2GeneralStringTable {
            was_changed: false,
            next_index: 0,
            inner: Vec::new(),
            lower: Vec::new(),
        };
        proof {
            assert(r.strings() =~= Seq::<Seq<char>>::empty());
        }
        r
    }

    /// Appends `value` unconditionally and returns its new index. The
    /// dirty flag is left as it is: deciding whether an append dirties
    /// the table is `get_index`'s business.
    pub fn add(&mut self, value: String) -> (r: u32)
        requires
            old(self).wf(),
            old(self).strings().len() < u32::MAX,
        ensures
            final(self).wf(),
            final(self).strings() == old(self).strings().push(value@),
            final(self).changed() == old(self).changed(),
            r == old(self).strings().len(),
    {
        let low = lowercase(value.as_str());
        let r = self.next_index;
        self.lower.push(low);
        self.inner.push(value);
        self.next_index = self.next_index + 1;
        proof {
            assert(self.strings() =~= old(self).strings().push(value@));
        }
        r
    }

    /// Interns a string: the empty string is canonicalized first; lookup
    /// is case-insensitive; a hit returns the existing index and changes
    /// nothing; a miss appends at the next free index and marks the table
    /// changed.
    #[verifier::loop_isolation(false)]
    pub fn get_index(&mut self, value: &str) -> (r: u32)
        requires
            old(self).wf(),
            old(self).strings().len() < u32::MAX,
        ensures
            final(self).wf(),
            r as int == get_index_result(old(self).strings(), value@),
            final(self).strings() == get_index_table(old(self).strings(), value@),
            final(self).changed() == (old(self).changed() || latest_lower_match(
                old(self).strings(),
                lower_of(canon(value@)),
            ) < 0),
    {
        let key: &str = if value.unicode_len() == 0 {
            "None"
        } else {
            value
        };
        proof {
            assert(key@ == canon(value@));
        }
        let low = lowercase(key);
        let ghost l = lower_of(canon(value@));
        let n = self.inner.len();
        let mut i: usize = n;
        while i > 0
            invariant
                i <= n,
                forall|q: int|
                    i <= q < self.strings().len() ==> lower_of(#[trigger] self.strings()[q]) != l,
            decreases i,
        {
            i = i - 1;
            if self.lower[i] == low {
                proof {
                    assert(self.strings()[i as int] == self.inner@[i as int]@);
                    lemma_latest_lower_match_found(self.strings(), l, i as int);
                }
                return i as u32;
            }
            proof {
                assert(self.strings()[i as int] == self.inner@[i as int]@);
                assert(lower_of(self.strings()[i as int]) != l);
            }
        }
        proof {
            lemma_latest_lower_match_none(self.strings(), l);
        }
        self.was_changed = true;
        let r = self.add(String::from_str(key));
        r
    }

    /// Rebuilds a table from the flat ordered list of a table file:
    /// indices are positions, and the result is not marked changed.
    pub fn from_vec(values: Vec<String>) -> (r: Self)
        requires
            values@.len() < u32::MAX,
        ensures
            r.wf(),
            r.strings() == values@.map_values(|s: String| s@),
            !r.changed(),
    {
        let mut s = Self::new();
        let n = values.len();
        let mut i: usize = 0;
        proof {
            assert(s.strings() =~= values@.map_values(|x: String| x@).take(0));
        }
        while i < n
            invariant
                i <= n,
                n == values@.len(),
                values@.len() < u32::MAX,
                s.wf(),
                !s.changed(),
                s.strings() == values@.map_values(|x: String| x@).take(i as int),
            decreases n - i,
        {
            let v = values[i].clone();
            s.add(v);
            proof {
                assert(s.strings() =~= values@.map_values(|x: String| x@).take(i as int + 1));
            }
            i = i + 1;
        }
        proof {
            assert(values@.map_values(|x: String| x@).take(n as int) =~= values@.map_values(
                |x: String| x@,
            ));
        }
        s
    }

    /// The flat ordered list the table is serialized to: the strings in
    /// index order, gap-free.
    pub fn to_vec(&self) -> (r: Vec<String>)
        ensures
            r@.len() == self.strings().len(),
            forall|i: int| 0 <= i < r@.len() ==> #[trigger] r@[i]@ == self.strings()[i],
    {
        let mut r: Vec<String> = Vec::new();
        let mut i: usize = 0;
        while i < self.inner.len()
            invariant
                i <= self.inner@.len(),
                r@.len() == i,
                forall|q: int| 0 <= q < i ==> #[trigger] r@[q]@ == self.strings()[q],
            decreases self.inner@.len() - i,
        {
            r.push(self.inner[i].clone());
            i = i + 1;
        }
        r
    }

    /// The number of interned strings.
    pub fn len(&self) -> (r: usize)
        ensures
            r == self.strings().len(),
    {
        self.inner.len()
    }

    /// The assigned indices, in ascending order.
    pub fn keys(&self) -> (r: Vec<u32>)
        requires
            self.wf(),
        ensures
            r@.len() == self.strings().len(),
            forall|i: int| 0 <= i < r@.len() ==> #[trigger] r@[i] == i as u32,
    {
        let mut r: Vec<u32> = Vec::new();
        let mut i: usize = 0;
        while i < self.inner.len()
            invariant
                self.wf(),
                i <= self.inner@.len(),
                r@.len() == i,
                forall|q: int| 0 <= q < i ==> #[trigger] r@[q] == q as u32,
            decreases self.inner@.len() - i,
        {
            r.push(i as u32);
            i = i + 1;
        }
        r
    }

    /// The string at `key`, if one was assigned.
    pub fn get(&self, key: &u32) -> (r: Option<&String>)
        ensures
            match r {
                Some(s) => *key < self.strings().len() && s@ == self.strings()[*key as int],
                None => *key >= self.strings().len(),
            },
    {
        if (*key as usize) < self.inner.len() {
            Some(&self.inner[*key as usize])
        } else {
            None
        }
    }

    /// The string at `key`, or the deterministic placeholder for an
    /// unknown index. A display-only escape hatch: the codec path uses
    /// `get` and fails loudly instead.
    pub fn get_o(&self, key: &u32) -> (r: String)
        ensures
            *key < self.strings().len() ==> r@ == self.strings()[*key as int],
            *key >= self.strings().len() ==> r@ == "NameNotFound["@ + dec_digits(*key as nat)
                + "]"@,
    {
        if (*key as usize) < self.inner.len() {
            self.inner[*key as usize].clone()
        } else {
            let num = u32_to_decimal(*key);
            let mut r = String::from_str("NameNotFound[");
            r.append(num.as_str());
            r.append("]");
            r
        }
    }

    /// The string at an assigned index. The caller answers for the index:
    /// an unassigned one is outside this function's contract.
    pub fn index(&self, key: u32) -> (r: &String)
        requires
            key < self.strings().len(),
        ensures
            r@ == self.strings()[key as int],
    {
        &self.inner[key as usize]
    }
}

} // verus!

verus! {

/// The greatest index in `strs` holding exactly `v`, or -1 when none
/// does. As in the general table, the latest entry wins the reverse
/// mapping.
pub open spec fn latest_exact_match(strs: Seq<Seq<char>>, v: Seq<char>) -> int
    decreases strs.len(),
{
    if strs.len() == 0 {
        -1
    } else if strs.last() == v {
        strs.len() - 1
    } else {
        latest_exact_match(strs.drop_last(), v)
    }
}

/// The index the skill-string table returns: the latest exact match if
/// one exists, else the next free index.
pub open spec fn skill_get_index_result(strs: Seq<Seq<char>>, s: Seq<char>) -> int {
    let m = latest_exact_match(strs, s);
    if m >= 0 {
        m
    } else {
        strs.len() as int
    }
}

/// The skill-string table contents after `get_index`.
pub open spec fn skill_get_index_table(strs: Seq<Seq<char>>, s: Seq<char>) -> Seq<Seq<char>> {
    if latest_exact_match(strs, s) >= 0 {
        strs
    } else {
        strs.push(s)
    }
}

pub proof fn lemma_latest_exact_match_found(strs: Seq<Seq<char>>, v: Seq<char>, i: int)
    requires
        0 <= i < strs.len(),
        strs[i] == v,
        forall|q: int| i < q < strs.len() ==> #[trigger] strs[q] != v,
    ensures
        latest_exact_match(strs, v) == i,
    decreases strs.len(),
{
    if i == strs.len() - 1 {
    } else {
        assert(strs.last() != v);
        assert(forall|q: int| i < q < strs.drop_last().len() ==> #[trigger] strs.drop_last()[q] != v);
        assert(strs.drop_last()[i] == strs[i]);
        lemma_latest_exact_match_found(strs.drop_last(), v, i);
    }
}

pub proof fn lemma_latest_exact_match_none(strs: Seq<Seq<char>>, v: Seq<char>)
    requires
        forall|q: int| 0 <= q < strs.len() ==> #[trigger] strs[q] != v,
    ensures
        latest_exact_match(strs, v) == -1,
    decreases strs.len(),
{
    if strs.len() > 0 {
        lemma_latest_exact_match_none(strs.drop_last(), v);
    }
}

/// The per-file table of skill strings: like the general table, but
/// lookup is case-sensitive and the table carries no dirty flag, because
/// it is rebuilt for each encode of its file.
pub struct L2SkillStringTable {
    next_index: u32,
    inner: Vec<String>,
}

impl L2SkillStringTable {
    /// The interned strings, in index order.
    pub closed spec fn strings(&self) -> Seq<Seq<char>> {
        self.inner@.map_values(|s: String| s@)
    }

    /// The internal invariant: the counter equals the number of entries.
    pub closed spec fn wf(&self) -> bool {
        self.next_index as nat == self.inner@.len()
    }

    /// An empty table.
    pub fn new() -> (r: Self)
        ensures
            r.wf(),
            r.strings() == Seq::<Seq<char>>::empty(),
    {
        let r = L2SkillStringTable { next_index: 0, inner: Vec::new() };
        proof {
            assert(r.strings() =~= Seq::<Seq<char>>::empty());
        }
        r
    }

    /// Appends `value` unconditionally and returns its new index.
    pub fn add(&mut self, value: String) -> (r: u32)
        requires
            old(self).wf(),
            old(self).strings().len() < u32::MAX,
        ensures
            final(self).wf(),
            final(self).strings() == old(self).strings().push(value@),
            r == old(self).strings().len(),
    {
        let r = self.next_index;
        self.inner.push(value);
        self.next_index = self.next_index + 1;
        proof {
            assert(self.strings() =~= old(self).strings().push(value@));
        }
        r
    }

    /// Interns a string: a case-sensitive hit returns the existing index
    /// and changes nothing; a miss appends at the next free index.
    #[verifier::loop_isolation(false)]
    pub fn get_index(&mut self, value: &str) -> (r: u32)
        requires
            old(self).wf(),
            old(self).strings().len() < u32::MAX,
        ensures
            final(self).wf(),
            r as int == skill_get_index_result(old(self).strings(), value@),
            final(self).strings() == skill_get_index_table(old(self).strings(), value@),
    {
        let owned = String::from_str(value);
        let n = self.inner.len();
        let mut i: usize = n;
        while i > 0
            invariant
                i <= n,
                forall|q: int|
                    i <= q < self.strings().len() ==> #[trigger] self.strings()[q] != value@,
            decreases i,
        {
            i = i - 1;
            if self.inner[i] == owned {
                proof {
                    assert(self.strings()[i as int] == self.inner@[i as int]@);
                    lemma_latest_exact_match_found(self.strings(), value@, i as int);
                }
                return i as u32;
            }
            proof {
                assert(self.strings()[i as int] == self.inner@[i as int]@);
            }
        }
        proof {
            lemma_latest_exact_match_none(self.strings(), value@);
        }
        self.add(owned)
    }

    /// Rebuilds a table from the flat ordered list of a table file.
    pub fn from_vec(values: Vec<String>) -> (r: Self)
        requires
            values@.len() < u32::MAX,
        ensures
            r.wf(),
            r.strings() == values@.map_values(|s: String| s@),
    {
        let mut s = Self::new();
        let n = values.len();
        let mut i: usize = 0;
        proof {
            assert(s.strings() =~= values@.map_values(|x: String| x@).take(0));
        }
        while i < n
            invariant
                i <= n,
                n == values@.len(),
                values@.len() < u32::MAX,
                s.wf(),
                s.strings() == values@.map_values(|x: String| x@).take(i as int),
            decreases n - i,
        {
            let v = values[i].clone();
            s.add(v);
            proof {
                assert(s.strings() =~= values@.map_values(|x: String| x@).take(i as int + 1));
            }
            i = i + 1;
        }
        proof {
            assert(values@.map_values(|x: String| x@).take(n as int) =~= values@.map_values(
                |x: String| x@,
            ));
        }
        s
    }

    /// The flat ordered list the table is serialized to.
    pub fn to_vec(&self) -> (r: Vec<String>)
        ensures
            r@.len() == self.strings().len(),
            forall|i: int| 0 <= i < r@.len() ==> #[trigger] r@[i]@ == self.strings()[i],
    {
        let mut r: Vec<String> = Vec::new();
        let mut i: usize = 0;
        while i < self.inner.len()
            invariant
                i <= self.inner@.len(),
                r@.len() == i,
                forall|q: int| 0 <= q < i ==> #[trigger] r@[q]@ == self.strings()[q],
            decreases self.inner@.len() - i,
        {
            r.push(self.inner[i].clone());
            i = i + 1;
        }
        r
    }

    /// The number of interned strings.
    pub fn len(&self) -> (r: usize)
        ensures
            r == self.strings().len(),
    {
        self.inner.len()
    }

    /// The assigned indices, in ascending order.
    pub fn keys(&self) -> (r: Vec<u32>)
        requires
            self.wf(),
        ensures
            r@.len() == self.strings().len(),
            forall|i: int| 0 <= i < r@.len() ==> #[trigger] r@[i] == i as u32,
    {
        let mut r: Vec<u32> = Vec::new();
        let mut i: usize = 0;
        while i < self.inner.len()
            invariant
                self.wf(),
                i <= self.inner@.len(),
                r@.len() == i,
                forall|q: int| 0 <= q < i ==> #[trigger] r@[q] == q as u32,
            decreases self.inner@.len() - i,
        {
            r.push(i as u32);
            i = i + 1;
        }
        r
    }

    /// The string at `key`, if one was assigned.
    pub fn get(&self, key: &u32) -> (r: Option<&String>)
        ensures
            match r {
                Some(s) => *key < self.strings().len() && s@ == self.strings()[*key as int],
                None => *key >= self.strings().len(),
            },
    {
        if (*key as usize) < self.inner.len() {
            Some(&self.inner[*key as usize])
        } else {
            None
        }
    }

    /// The string at `key`, or the deterministic placeholder for an
    /// unknown index.
    pub fn get_o(&self, key: &u32) -> (r: String)
        ensures
            *key < self.strings().len() ==> r@ == self.strings()[*key as int],
            *key >= self.strings().len() ==> r@ == "NameNotFound["@ + dec_digits(*key as nat)
                + "]"@,
    {
        if (*key as usize) < self.inner.len() {
            self.inner[*key as usize].clone()
        } else {
            let num = u32_to_decimal(*key);
            let mut r = String::from_str("NameNotFound[");
            r.append(num.as_str());
            r.append("]");
            r
        }
    }

    /// The string at an assigned index.
    pub fn index(&self, key: u32) -> (r: &String)
        requires
            key < self.strings().len(),
        ensures
            r@ == self.strings()[key as int],
    {
        &self.inner[key as usize]
    }
}

/// Law: case-insensitive deduplication. If two strings have the same
/// lowercase form after canonicalization, then interning the second right
/// after the first returns the very index the first call returned, and
/// leaves the table — its contents and its next free index — unchanged.
pub proof fn lemma_get_index_dedup(strs: Seq<Seq<char>>, a: Seq<char>, b: Seq<char>)
    requires
        lower_of(canon(a)) == lower_of(canon(b)),
    ensures
        get_index_result(get_index_table(strs, a), b) == get_index_result(strs, a),
        get_index_table(get_index_table(strs, a), b) == get_index_table(strs, a),
{
    let l = lower_of(canon(a));
    let m = latest_lower_match(strs, l);
    lemma_latest_lower_match_in_range(strs, l);
    if m >= 0 {
    } else {
        let t2 = strs.push(canon(a));
        assert(t2.last() == canon(a));
        assert(latest_lower_match(t2, l) == t2.len() - 1);
    }
}

/// Law: the ordered list tracks first assignment. One `get_index` call
/// never moves or replaces an existing entry: every index keeps its
/// string; a new string is only ever appended at the next free index, so
/// the ordered list stays gap-free and lists the strings in exactly the
/// order their indices were first assigned.
pub proof fn lemma_get_index_keeps_order(strs: Seq<Seq<char>>, s: Seq<char>)
    ensures
        get_index_table(strs, s).len() >= strs.len(),
        forall|i: int|
            0 <= i < strs.len() ==> #[trigger] get_index_table(strs, s)[i] == strs[i],
        get_index_table(strs, s).len() == strs.len() || (get_index_table(strs, s).len()
            == strs.len() + 1 && get_index_table(strs, s)[strs.len() as int] == canon(s)
            && get_index_result(strs, s) == strs.len()),
{
    let l = lower_of(canon(s));
    lemma_latest_lower_match_in_range(strs, l);
}

} // verus!

verus! {

impl Clone for L2GeneralStringTable {
    /// A snapshot with the same strings and the same dirty flag, for the
    /// writer task of a save.
    fn clone(&self) -> (r: Self)
        ensures
            r.strings() == self.strings(),
            r.changed() == self.changed(),
            self.wf() ==> r.wf(),
    {
        let mut inner: Vec<String> = Vec::new();
        let mut lower: Vec<String> = Vec::new();
        let n = self.inner.len();
        let mut i: usize = 0;
        while i < n
            invariant
                i <= n,
                n == self.inner@.len(),
                inner@ == self.inner@.take(i as int),
                lower@.len() == i,
                self.wf() ==> forall|q: int|
                    0 <= q < i ==> (#[trigger] lower@[q])@ == crate::text::lower_of(
                        self.inner@[q]@,
                    ),
            decreases n - i,
        {
            if i < self.lower.len() {
                lower.push(self.lower[i].clone());
            } else {
                lower.push(lowercase(self.inner[i].as_str()));
            }
            inner.push(self.inner[i].clone());
            proof {
                assert(inner@ =~= self.inner@.take(i as int + 1));
            }
            i = i + 1;
        }
        proof {
            assert(self.inner@.take(n as int) =~= self.inner@);
        }
        let r = L2GeneralStringTable {
            was_changed: self.was_changed,
            next_index: self.next_index,
            inner,
            lower,
        };
        proof {
            assert(r.strings() =~= self.strings());
        }
        r
    }
}

} // verus!

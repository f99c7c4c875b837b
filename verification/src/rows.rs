//! Result rows as ordered maps from column name to column value.
//!
//! A row is kept as an association vector whose keys are strictly increasing
//! in lexicographic order, so a row serialised at the boundary lists its
//! columns in column-name order, stably across calls. When the engine yields
//! the same column name twice, the later occurrence wins, as in a map.

use vstd::prelude::*;
use crate::values::SqlValue;

verus! {

/// Strict lexicographic order on character sequences: a proper prefix comes
/// first, otherwise the first differing character decides.
pub open spec fn lex_lt(a: Seq<char>, b: Seq<char>) -> bool
    decreases b.len(),
{
    if b.len() == 0 {
        false
    } else if a.len() == 0 {
        true
    } else if a[0] < b[0] {
        true
    } else if b[0] < a[0] {
        false
    } else {
        lex_lt(a.drop_first(), b.drop_first())
    }
}

/// Of two distinct sequences, exactly one precedes the other.
pub proof fn lemma_lex_trichotomy(a: Seq<char>, b: Seq<char>)
    ensures
        lex_lt(a, b) || lex_lt(b, a) || a == b,
        lex_lt(a, b) ==> !lex_lt(b, a) && a != b,
        lex_lt(b, a) ==> !lex_lt(a, b) && a != b,
    decreases a.len() + b.len(),
{
    if a.len() == 0 && b.len() == 0 {
        assert(a =~= b);
    } else if a.len() > 0 && b.len() > 0 {
        if a[0] == b[0] {
            lemma_lex_trichotomy(a.drop_first(), b.drop_first());
            lemma_eq_via_drop_first(a, b);
        }
    }
}

/// Nonempty sequences are equal exactly when their heads and tails are.
proof fn lemma_eq_via_drop_first(a: Seq<char>, b: Seq<char>)
    requires
        a.len() > 0,
        b.len() > 0,
    ensures
        (a == b) <==> (a[0] == b[0] && a.drop_first() == b.drop_first()),
{
    if a[0] == b[0] && a.drop_first() == b.drop_first() {
        assert(a =~= b) by {
            assert(a.drop_first().len() == b.drop_first().len());
            assert forall|k: int| 0 <= k < a.len() implies a[k] == b[k] by {
                if k > 0 {
                    assert(a[k] == a.drop_first()[k - 1]);
                    assert(b[k] == b.drop_first()[k - 1]);
                }
            }
        }
    }
    if a == b {
        assert(a.drop_first() =~= b.drop_first());
    }
}

/// The order is transitive.
pub proof fn lemma_lex_transitive(a: Seq<char>, b: Seq<char>, c: Seq<char>)
    requires
        lex_lt(a, b),
        lex_lt(b, c),
    ensures
        lex_lt(a, c),
    decreases a.len() + b.len() + c.len(),
{
    if a.len() > 0 && b.len() > 0 && c.len() > 0 {
        if a[0] == b[0] && b[0] == c[0] {
            lemma_lex_transitive(a.drop_first(), b.drop_first(), c.drop_first());
        }
    }
}

/// Comparing sequences that agree on their first `i` characters is comparing
/// what remains after those characters.
proof fn lemma_lex_skip(a: Seq<char>, b: Seq<char>, i: int)
    requires
        0 <= i <= a.len(),
        i <= b.len(),
        forall|j: int| 0 <= j < i ==> a[j] == b[j],
    ensures
        lex_lt(a, b) == lex_lt(a.skip(i), b.skip(i)),
        (a == b) <==> (a.skip(i) == b.skip(i)),
    decreases i,
{
    if i == 0 {
        assert(a.skip(0) =~= a);
        assert(b.skip(0) =~= b);
    } else {
        assert(a[0] == b[0]);
        lemma_lex_skip(a.drop_first(), b.drop_first(), i - 1);
        assert(a.drop_first().skip(i - 1) =~= a.skip(i));
        assert(b.drop_first().skip(i - 1) =~= b.skip(i));
        lemma_eq_via_drop_first(a, b);
    }
}

/// The verdict of one key comparison.
pub enum KeyOrder {
    Less,
    Equal,
    Greater,
}

/// Three-way lexicographic comparison of two strings, by characters.
pub fn str_compare(a: &str, b: &str) -> (r: KeyOrder)
    ensures
        r is Less ==> lex_lt(a@, b@),
        r is Equal ==> a@ == b@,
        r is Greater ==> lex_lt(b@, a@),
{
    let na = a.unicode_len();
    let nb = b.unicode_len();
    let mut i: usize = 0;
    while i < na && i < nb
        invariant
            i <= na,
            i <= nb,
            na == a@.len(),
            nb == b@.len(),
            forall|j: int| 0 <= j < i ==> a@[j] == b@[j],
        decreases na - i,
    {
        let ca = a.get_char(i);
        let cb = b.get_char(i);
        if ca < cb {
            proof {
                lemma_lex_skip(a@, b@, i as int);
                assert(a@.skip(i as int)[0] == ca && b@.skip(i as int)[0] == cb);
                assert(lex_lt(a@.skip(i as int), b@.skip(i as int)));
            }
            return KeyOrder::Less;
        }
        if cb < ca {
            proof {
                lemma_lex_skip(b@, a@, i as int);
                assert(b@.skip(i as int)[0] == cb && a@.skip(i as int)[0] == ca);
                assert(lex_lt(b@.skip(i as int), a@.skip(i as int)));
            }
            return KeyOrder::Greater;
        }
        i = i + 1;
    }
    if na == nb {
        proof {
            lemma_lex_skip(a@, b@, i as int);
            assert(a@.skip(i as int) =~= b@.skip(i as int));
        }
        KeyOrder::Equal
    } else if na < nb {
        proof {
            lemma_lex_skip(a@, b@, i as int);
            assert(a@.skip(i as int).len() == 0 && b@.skip(i as int).len() > 0);
            assert(lex_lt(a@.skip(i as int), b@.skip(i as int)));
        }
        KeyOrder::Less
    } else {
        proof {
            lemma_lex_skip(b@, a@, i as int);
            assert(b@.skip(i as int).len() == 0 && a@.skip(i as int).len() > 0);
            assert(lex_lt(b@.skip(i as int), a@.skip(i as int)));
        }
        KeyOrder::Greater
    }
}

/// A row's keys are strictly increasing.
pub open spec fn row_sorted(s: Seq<(String, SqlValue)>) -> bool {
    forall|i: int, j: int|
        0 <= i < j < s.len() ==> lex_lt(#[trigger] s[i].0@, #[trigger] s[j].0@)
}

/// A row read as a map from column name to value; a later occurrence of a
/// key overwrites an earlier one.
pub open spec fn row_map(s: Seq<(String, SqlValue)>) -> Map<Seq<char>, SqlValue>
    decreases s.len(),
{
    if s.len() == 0 {
        Map::empty()
    } else {
        row_map(s.drop_last()).insert(s.last().0@, s.last().1)
    }
}

/// Replacing the one entry that holds a key is, as a map, inserting at that
/// key.
proof fn lemma_row_map_update(s: Seq<(String, SqlValue)>, i: int, e: (String, SqlValue))
    requires
        0 <= i < s.len(),
        s[i].0@ == e.0@,
        forall|j: int| 0 <= j < s.len() && j != i ==> (#[trigger] s[j].0@) != e.0@,
    ensures
        row_map(s.update(i, e)) == row_map(s).insert(e.0@, e.1),
    decreases s.len(),
{
    let t = s.update(i, e);
    if i == s.len() - 1 {
        assert(t.drop_last() =~= s.drop_last());
        assert(t.last() == e);
        assert(row_map(s).insert(e.0@, e.1) =~= row_map(s.drop_last()).insert(e.0@, e.1));
        assert(row_map(t) =~= row_map(s.drop_last()).insert(e.0@, e.1));
    } else {
        assert(t.drop_last() =~= s.drop_last().update(i, e));
        assert(t.last() == s.last());
        assert(s.drop_last()[i] == s[i]);
        lemma_row_map_update(s.drop_last(), i, e);
        assert(s.last().0@ != e.0@);
        assert(row_map(s.drop_last()).insert(e.0@, e.1).insert(s.last().0@, s.last().1)
            =~= row_map(s.drop_last()).insert(s.last().0@, s.last().1).insert(e.0@, e.1));
        assert(row_map(t) =~= row_map(s).insert(e.0@, e.1));
    }
}

/// Inserting an entry whose key is absent is, as a map, inserting at that
/// key.
proof fn lemma_row_map_insert_at(s: Seq<(String, SqlValue)>, i: int, e: (String, SqlValue))
    requires
        0 <= i <= s.len(),
        forall|j: int| 0 <= j < s.len() ==> (#[trigger] s[j].0@) != e.0@,
    ensures
        row_map(s.insert(i, e)) == row_map(s).insert(e.0@, e.1),
    decreases s.len(),
{
    let t = s.insert(i, e);
    if i == s.len() {
        assert(t =~= s.push(e));
        assert(t.drop_last() =~= s);
        assert(t.last() == e);
    } else {
        assert(t.last() == s.last());
        assert(t.drop_last() =~= s.drop_last().insert(i, e));
        lemma_row_map_insert_at(s.drop_last(), i, e);
        assert(s.last().0@ != e.0@);
        assert(row_map(s.drop_last()).insert(e.0@, e.1).insert(s.last().0@, s.last().1)
            =~= row_map(s.drop_last()).insert(s.last().0@, s.last().1).insert(e.0@, e.1));
        assert(row_map(t) =~= row_map(s).insert(e.0@, e.1));
    }
}

/// Where `name` belongs in a sorted row: the index of the first key not
/// before `name`, and whether that key is `name` itself.
fn row_find(row: &Vec<(String, SqlValue)>, name: &String) -> (r: (usize, bool))
    requires
        row_sorted(row@),
    ensures
        ({
            let (idx, eq) = r;
            &&& idx <= row@.len()
            &&& forall|j: int| 0 <= j < idx ==> lex_lt(#[trigger] row@[j].0@, name@)
            &&& (eq ==> idx < row@.len() && row@[idx as int].0@ == name@)
            &&& (!eq ==> forall|j: int|
                idx <= j < row@.len() ==> lex_lt(name@, #[trigger] row@[j].0@))
        }),
{
    let mut i: usize = 0;
    loop
        invariant
            i <= row@.len(),
            row_sorted(row@),
            forall|j: int| 0 <= j < i ==> lex_lt(#[trigger] row@[j].0@, name@),
        decreases row@.len() - i,
    {
        if i >= row.len() {
            return (i, false);
        }
        match str_compare(row[i].0.as_str(), name.as_str()) {
            KeyOrder::Less => {
                i = i + 1;
            },
            KeyOrder::Equal => {
                return (i, true);
            },
            KeyOrder::Greater => {
                proof {
                    assert forall|j: int| i <= j < row@.len() implies lex_lt(
                        name@,
                        #[trigger] row@[j].0@,
                    ) by {
                        if j > i {
                            lemma_lex_transitive(name@, row@[i as int].0@, row@[j].0@);
                        }
                    }
                }
                return (i, false);
            },
        }
    }
}

/// Puts `(name, val)` into a sorted row, replacing the entry for `name` if
/// one is there. As a map this is exactly `insert`; the row stays sorted.
pub fn row_insert(row: &mut Vec<(String, SqlValue)>, name: String, val: SqlValue)
    requires
        row_sorted(old(row)@),
    ensures
        row_sorted(final(row)@),
        row_map(final(row)@) == row_map(old(row)@).insert(name@, val),
{
    let ghost orig = row@;
    let (idx, eq) = row_find(row, &name);
    if eq {
        proof {
            assert forall|j: int| 0 <= j < orig.len() && j != idx implies (#[trigger] orig[j].0@)
                != name@ by {
                if 0 <= j && j < orig.len() && j != idx {
                    if j < idx {
                        lemma_lex_trichotomy(orig[j].0@, name@);
                    } else {
                        assert(lex_lt(orig[idx as int].0@, orig[j].0@));
                        lemma_lex_trichotomy(orig[j].0@, name@);
                    }
                }
            }
        }
        row.set(idx, (name, val));
        proof {
            lemma_row_map_update(orig, idx as int, (name, val));
            assert forall|i: int, j: int| 0 <= i < j < row@.len() implies lex_lt(
                #[trigger] row@[i].0@,
                #[trigger] row@[j].0@,
            ) by {
                assert(row@[i].0@ == orig[i].0@);
                assert(row@[j].0@ == orig[j].0@);
            }
        }
    } else {
        proof {
            assert forall|j: int| 0 <= j < orig.len() implies (#[trigger] orig[j].0@) != name@ by {
                if 0 <= j && j < orig.len() {
                    lemma_lex_trichotomy(orig[j].0@, name@);
                }
            }
        }
        row.insert(idx, (name, val));
        proof {
            lemma_row_map_insert_at(orig, idx as int, (name, val));
            assert forall|i: int, j: int| 0 <= i < j < row@.len() implies lex_lt(
                #[trigger] row@[i].0@,
                #[trigger] row@[j].0@,
            ) by {
                if j < idx {
                    assert(row@[i] == orig[i] && row@[j] == orig[j]);
                } else if i > idx {
                    assert(row@[i] == orig[i - 1] && row@[j] == orig[j - 1]);
                } else if i < idx && j == idx {
                    assert(row@[i] == orig[i]);
                } else if i == idx && j > idx {
                    assert(row@[j] == orig[j - 1]);
                } else if i < idx && j > idx {
                    assert(row@[i] == orig[i] && row@[j] == orig[j - 1]);
                    lemma_lex_transitive(row@[i].0@, name@, row@[j].0@);
                }
            }
        }
    }
}

/// Collapses the column list of one engine row into a sorted row with map
/// semantics: a later duplicate column overwrites an earlier one.
#[verifier::loop_isolation(false)]
pub fn build_row(cols: Vec<(String, SqlValue)>) -> (r: Vec<(String, SqlValue)>)
    ensures
        row_sorted(r@),
        row_map(r@) == row_map(cols@),
{
    let ghost orig = cols@;
    let mut rest = cols;
    let mut out: Vec<(String, SqlValue)> = Vec::new();
    let ghost p: int = 0;
    loop
        invariant
            0 <= p <= orig.len(),
            rest@ =~= orig.skip(p),
            row_sorted(out@),
            row_map(out@) == row_map(orig.take(p)),
        decreases orig.len() - p,
    {
        if rest.len() == 0 {
            proof {
                assert(orig.take(p) =~= orig);
            }
            return out;
        }
        proof {
            assert(orig.skip(p)[0] == orig[p]);
        }
        let (n, v) = rest.remove(0);
        proof {
            assert(rest@ =~= orig.skip(p + 1));
            assert((n, v) == orig[p]);
            assert(orig.take(p + 1).drop_last() =~= orig.take(p));
            assert(orig.take(p + 1).last() == orig[p]);
        }
        row_insert(&mut out, n, v);
        proof {
            p = p + 1;
        }
    }
}

/// The keys a row's map holds are exactly the key views of its entries.
proof fn lemma_row_map_dom(s: Seq<(String, SqlValue)>)
    ensures
        forall|k: Seq<char>|
            #[trigger] row_map(s).contains_key(k) <==> exists|i: int|
                0 <= i < s.len() && (#[trigger] s[i].0@) == k,
    decreases s.len(),
{
    if s.len() > 0 {
        lemma_row_map_dom(s.drop_last());
        assert forall|k: Seq<char>| #[trigger] row_map(s).contains_key(k) implies exists|i: int|
            0 <= i < s.len() && (#[trigger] s[i].0@) == k by {
            if k == s.last().0@ {
                assert(s[s.len() - 1].0@ == k);
            } else {
                assert(row_map(s.drop_last()).contains_key(k));
                let i = choose|i: int|
                    0 <= i < s.drop_last().len() && (#[trigger] s.drop_last()[i].0@) == k;
                assert(s[i].0@ == k);
            }
        }
        assert forall|k: Seq<char>|
            (exists|i: int| 0 <= i < s.len() && (#[trigger] s[i].0@) == k) implies #[trigger] row_map(
            s,
        ).contains_key(k) by {
            let i = choose|i: int| 0 <= i < s.len() && (#[trigger] s[i].0@) == k;
            if i < s.len() - 1 {
                assert(s.drop_last()[i].0@ == k);
                assert(row_map(s.drop_last()).contains_key(k));
            }
        }
    }
}

/// Peeling the last entry off a sorted row: it holds the map's value at its
/// key, and the rest is the map without that key.
proof fn lemma_row_map_last(s: Seq<(String, SqlValue)>)
    requires
        row_sorted(s),
        s.len() > 0,
    ensures
        row_map(s).contains_key(s.last().0@),
        row_map(s)[s.last().0@] == s.last().1,
        !row_map(s.drop_last()).contains_key(s.last().0@),
        row_map(s.drop_last()) == row_map(s).remove(s.last().0@),
{
    lemma_row_map_dom(s.drop_last());
    assert forall|i: int| 0 <= i < s.drop_last().len() implies (#[trigger] s.drop_last()[i].0@)
        != s.last().0@ by {
        assert(lex_lt(s[i].0@, s.last().0@));
        lemma_lex_trichotomy(s[i].0@, s.last().0@);
    }
    assert(row_map(s.drop_last()) =~= row_map(s).remove(s.last().0@));
}

/// The sorted form is canonical: two sorted rows that read as the same map
/// agree entry for entry — a row's rendering at the boundary is therefore
/// stable across calls, however the engine ordered the columns.
pub proof fn lemma_sorted_row_canonical(s1: Seq<(String, SqlValue)>, s2: Seq<(String, SqlValue)>)
    requires
        row_sorted(s1),
        row_sorted(s2),
        row_map(s1) == row_map(s2),
    ensures
        s1.len() == s2.len(),
        forall|i: int|
            0 <= i < s1.len() ==> (#[trigger] s1[i].0@) == s2[i].0@ && s1[i].1 == s2[i].1,
    decreases s1.len(),
{
    lemma_row_map_dom(s1);
    lemma_row_map_dom(s2);
    if s1.len() == 0 {
        if s2.len() > 0 {
            assert(s2[s2.len() - 1].0@ == s2.last().0@);
            assert(row_map(s2).contains_key(s2.last().0@));
            assert(row_map(s1).dom() =~= Set::<Seq<char>>::empty());
        }
    } else if s2.len() == 0 {
        assert(s1[s1.len() - 1].0@ == s1.last().0@);
        assert(row_map(s1).contains_key(s1.last().0@));
        assert(row_map(s2).dom() =~= Set::<Seq<char>>::empty());
    } else {
        let k1 = s1.last().0@;
        let k2 = s2.last().0@;
        lemma_row_map_last(s1);
        lemma_row_map_last(s2);
        assert(k1 == k2) by {
            lemma_lex_trichotomy(k1, k2);
            if lex_lt(k1, k2) {
                // k2 appears in s1 at some index; every key there is at
                // most the last one, contradicting k1 < k2
                assert(row_map(s1).contains_key(k2));
                let i = choose|i: int| 0 <= i < s1.len() && (#[trigger] s1[i].0@) == k2;
                if i < s1.len() - 1 {
                    assert(lex_lt(s1[i].0@, k1));
                    lemma_lex_transitive(k1, k2, k1);
                    lemma_lex_trichotomy(k1, k1);
                }
            }
            if lex_lt(k2, k1) {
                assert(row_map(s2).contains_key(k1));
                let i = choose|i: int| 0 <= i < s2.len() && (#[trigger] s2[i].0@) == k1;
                if i < s2.len() - 1 {
                    assert(lex_lt(s2[i].0@, k2));
                    lemma_lex_transitive(k2, k1, k2);
                    lemma_lex_trichotomy(k2, k2);
                }
            }
        }
        assert(s1.last().1 == s2.last().1) by {
            assert(row_map(s1)[k1] == s1.last().1);
            assert(row_map(s2)[k2] == s2.last().1);
        }
        lemma_sorted_row_canonical(s1.drop_last(), s2.drop_last());
        assert forall|i: int| 0 <= i < s1.len() implies (#[trigger] s1[i].0@) == s2[i].0@ && s1[i].1
            == s2[i].1 by {
            if i < s1.len() - 1 {
                assert(s1.drop_last()[i] == s1[i]);
                assert(s2.drop_last()[i] == s2[i]);
            }
        }
    }
}

/// Whether every row of a table is sorted.
pub open spec fn table_wf(t: Seq<Vec<(String, SqlValue)>>) -> bool {
    forall|i: int| 0 <= i < t.len() ==> row_sorted(#[trigger] t[i]@)
}

/// Collapses every engine row of a result set, keeping the row order.
#[verifier::loop_isolation(false)]
pub fn build_table(raw: Vec<Vec<(String, SqlValue)>>) -> (r: Vec<Vec<(String, SqlValue)>>)
    ensures
        r@.len() == raw@.len(),
        table_wf(r@),
        forall|i: int| 0 <= i < r@.len() ==> row_map(#[trigger] r@[i]@) == row_map(raw@[i]@),
{
    let ghost orig = raw@;
    let mut rest = raw;
    let mut out: Vec<Vec<(String, SqlValue)>> = Vec::new();
    let ghost p: int = 0;
    loop
        invariant
            0 <= p <= orig.len(),
            rest@ =~= orig.skip(p),
            out@.len() == p,
            forall|i: int|
                0 <= i < p ==> row_sorted(#[trigger] out@[i]@) && row_map(out@[i]@) == row_map(
                    orig[i]@,
                ),
        decreases orig.len() - p,
    {
        if rest.len() == 0 {
            return out;
        }
        proof {
            assert(orig.skip(p)[0] == orig[p]);
        }
        let cols = rest.remove(0);
        proof {
            assert(rest@ =~= orig.skip(p + 1));
        }
        out.push(build_row(cols));
        proof {
            p = p + 1;
        }
    }
}

} // verus!

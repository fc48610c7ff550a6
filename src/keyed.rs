use vstd::prelude::*;

verus! {

/// The map that a sequence of key/value pairs denotes when later pairs
/// override earlier ones with the same key.
pub open spec fn table<V>(s: Seq<(Seq<char>, V)>) -> Map<Seq<char>, V>
    decreases s.len(),
{
    if s.len() == 0 {
        Map::empty()
    } else {
        table(s.drop_last()).insert(s.last().0, s.last().1)
    }
}

/// A key is bound in the table exactly when some pair carries it.
pub proof fn lemma_table_domain<V>(s: Seq<(Seq<char>, V)>, k: Seq<char>)
    ensures
        table(s).contains_key(k) <==> exists|i: int| 0 <= i < s.len() && s[i].0 == k,
    decreases s.len(),
{
    if s.len() > 0 {
        lemma_table_domain(s.drop_last(), k);
        if exists|i: int| 0 <= i < s.len() && s[i].0 == k {
            let i = choose|i: int| 0 <= i < s.len() && s[i].0 == k;
            if i < s.len() - 1 {
                assert(s.drop_last()[i].0 == k);
            }
        }
        if exists|i: int| 0 <= i < s.len() - 1 && s.drop_last()[i].0 == k {
            let i = choose|i: int| 0 <= i < s.len() - 1 && s.drop_last()[i].0 == k;
            assert(s[i].0 == k);
        }
    }
}

/// `i` is the last position that carries key `k`.
pub open spec fn last_with<V>(s: Seq<(Seq<char>, V)>, i: int, k: Seq<char>) -> bool {
    &&& 0 <= i < s.len()
    &&& s[i].0 == k
    &&& forall|j: int| i < j < s.len() ==> s[j].0 != k
}

/// The table binds a key to the value of the last pair that carries it.
pub proof fn lemma_table_at<V>(s: Seq<(Seq<char>, V)>, i: int, k: Seq<char>)
    requires
        last_with(s, i, k),
    ensures
        table(s).contains_key(k),
        table(s)[k] == s[i].1,
    decreases s.len(),
{
    if i < s.len() - 1 {
        assert(s.drop_last()[i] == s[i]);
        lemma_table_at(s.drop_last(), i, k);
    }
}

/// Replacing the value of the last pair that carries a key updates the
/// table at that key only.
pub proof fn lemma_table_update<V>(s: Seq<(Seq<char>, V)>, i: int, k: Seq<char>, v: V)
    requires
        last_with(s, i, k),
    ensures
        table(s.update(i, (k, v))) == table(s).insert(k, v),
    decreases s.len(),
{
    let t = s.update(i, (k, v));
    if i == s.len() - 1 {
        assert(t.drop_last() =~= s.drop_last());
        assert(table(t) =~= table(s).insert(k, v));
    } else {
        assert(t.drop_last() =~= s.drop_last().update(i, (k, v)));
        lemma_table_update(s.drop_last(), i, k, v);
        assert(table(t) =~= table(s).insert(k, v));
    }
}

/// Appending a pair binds its key to its value.
pub proof fn lemma_table_push<V>(s: Seq<(Seq<char>, V)>, k: Seq<char>, v: V)
    ensures
        table(s.push((k, v))) == table(s).insert(k, v),
{
    assert(s.push((k, v)).drop_last() =~= s);
}

/// No key occurs twice.
pub open spec fn keys_distinct<V>(s: Seq<(Seq<char>, V)>) -> bool {
    forall|i: int, j: int| 0 <= i < j < s.len() ==> s[i].0 != s[j].0
}

/// With distinct keys the table has one binding per pair.
pub proof fn lemma_table_len<V>(s: Seq<(Seq<char>, V)>)
    requires
        keys_distinct(s),
    ensures
        table(s).dom().finite(),
        table(s).dom().len() == s.len(),
    decreases s.len(),
{
    if s.len() > 0 {
        let p = s.drop_last();
        assert(keys_distinct(p));
        lemma_table_len(p);
        lemma_table_domain(p, s.last().0);
        assert(!table(p).contains_key(s.last().0));
        assert(table(s).dom() =~= table(p).dom().insert(s.last().0));
    } else {
        assert(table(s).dom() =~= Set::empty());
    }
}

/// Lexicographic order on texts by code point, the order of `String`'s `Ord`.
pub open spec fn text_lt(a: Seq<char>, b: Seq<char>) -> bool
    decreases a.len(),
{
    if a.len() == 0 {
        b.len() > 0
    } else if b.len() == 0 {
        false
    } else if a[0] != b[0] {
        (a[0] as int) < (b[0] as int)
    } else {
        text_lt(a.drop_first(), b.drop_first())
    }
}

/// Keys strictly increase along the sequence.
pub open spec fn keys_sorted<V>(s: Seq<(Seq<char>, V)>) -> bool {
    forall|i: int, j: int| 0 <= i < j < s.len() ==> text_lt(s[i].0, s[j].0)
}

/// Two different texts are ordered one way or the other.
pub proof fn lemma_text_lt_total(a: Seq<char>, b: Seq<char>)
    ensures
        a == b || text_lt(a, b) || text_lt(b, a),
    decreases a.len(),
{
    if a.len() > 0 && b.len() > 0 && a[0] == b[0] {
        lemma_text_lt_total(a.drop_first(), b.drop_first());
        if a.drop_first() == b.drop_first() {
            assert(a =~= seq![a[0]] + a.drop_first());
            assert(b =~= seq![b[0]] + b.drop_first());
            assert(a =~= b);
        }
    } else if a.len() == 0 && b.len() == 0 {
        assert(a =~= b);
    } else if a.len() > 0 && b.len() > 0 {
        assert(a[0] as int != b[0] as int);
    }
}

/// The order on texts is transitive.
pub proof fn lemma_text_lt_transitive(a: Seq<char>, b: Seq<char>, c: Seq<char>)
    requires
        text_lt(a, b),
        text_lt(b, c),
    ensures
        text_lt(a, c),
    decreases a.len(),
{
    if a.len() > 0 && b.len() > 0 && c.len() > 0 && a[0] == b[0] && b[0] == c[0] {
        lemma_text_lt_transitive(a.drop_first(), b.drop_first(), c.drop_first());
    }
}

/// Inserting a pair with a new key anywhere binds that key to its value.
pub proof fn lemma_table_insert<V>(s: Seq<(Seq<char>, V)>, p: int, k: Seq<char>, v: V)
    requires
        0 <= p <= s.len(),
        forall|i: int| 0 <= i < s.len() ==> s[i].0 != k,
    ensures
        table(s.insert(p, (k, v))) == table(s).insert(k, v),
    decreases s.len(),
{
    let t = s.insert(p, (k, v));
    if p == s.len() {
        assert(t =~= s.push((k, v)));
        lemma_table_push(s, k, v);
    } else {
        assert(t.drop_last() =~= s.drop_last().insert(p, (k, v)));
        assert(t.last() == s.last());
        lemma_table_insert(s.drop_last(), p, k, v);
        assert(table(t) =~= table(s).insert(k, v));
    }
}

} // verus!

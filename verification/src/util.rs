use crate::ir::class::ClassId;
use std::collections::BTreeMap;
use vstd::prelude::*;

verus! {

/// Hands out consecutive numbers, starting from zero.
#[derive(Debug)]
pub struct Counter {
    pub value: usize,
}

impl Counter {
    pub fn new() -> (r: Counter)
        ensures
            r.value == 0,
    {
        Counter { value: 0 }
    }

    /// Returns the current number and moves past it.
    pub fn next(&mut self) -> (r: usize)
        requires
            old(self).value < usize::MAX,
        ensures
            r == old(self).value,
            final(self).value == old(self).value + 1,
    {
        let r = self.value;
        self.value = self.value + 1;
        r
    }
}

/// The map that an association list of pairs stands for; a later pair wins
/// over an earlier one with the same key.
pub open spec fn assoc_map<K, V>(entries: Seq<(K, V)>) -> Map<K, V>
    decreases entries.len(),
{
    if entries.len() == 0 {
        Map::empty()
    } else {
        assoc_map(entries.drop_last()).insert(entries.last().0, entries.last().1)
    }
}

/// No key occurs twice in the association list.
pub open spec fn distinct_keys<K, V>(entries: Seq<(K, V)>) -> bool {
    forall|i: int, j: int|
        0 <= i < entries.len() && 0 <= j < entries.len() && i != j ==> entries[i].0
            != entries[j].0
}

/// The keys of an association list are those of its map.
pub proof fn lemma_assoc_contains<K, V>(entries: Seq<(K, V)>, k: K)
    ensures
        assoc_map(entries).contains_key(k) <==> exists|i: int|
            0 <= i < entries.len() && (#[trigger] entries[i]).0 == k,
    decreases entries.len(),
{
    if entries.len() > 0 {
        let pre = entries.drop_last();
        lemma_assoc_contains(pre, k);
        if assoc_map(pre).contains_key(k) {
            let i = choose|i: int| 0 <= i < pre.len() && (#[trigger] pre[i]).0 == k;
            assert(entries[i] == pre[i]);
        }
        if exists|i: int| 0 <= i < entries.len() && (#[trigger] entries[i]).0 == k {
            let i = choose|i: int| 0 <= i < entries.len() && (#[trigger] entries[i]).0 == k;
            if i < entries.len() - 1 {
                assert(pre[i] == entries[i]);
            }
        }
    }
}

/// With distinct keys, the map sends the key of each pair to its value.
pub proof fn lemma_assoc_index<K, V>(entries: Seq<(K, V)>, i: int)
    requires
        distinct_keys(entries),
        0 <= i < entries.len(),
    ensures
        assoc_map(entries).contains_key(entries[i].0),
        assoc_map(entries)[entries[i].0] == entries[i].1,
    decreases entries.len(),
{
    let pre = entries.drop_last();
    if i < entries.len() - 1 {
        assert(pre[i] == entries[i]);
        assert(distinct_keys(pre)) by {
            assert forall|a: int, b: int|
                0 <= a < pre.len() && 0 <= b < pre.len() && a != b implies pre[a].0 != pre[b].0 by {
                assert(pre[a] == entries[a] && pre[b] == entries[b]);
            }
        }
        lemma_assoc_index(pre, i);
    }
}

/// Replacing the value of a pair updates the map at its key.
pub proof fn lemma_assoc_update<K, V>(entries: Seq<(K, V)>, i: int, v: V)
    requires
        distinct_keys(entries),
        0 <= i < entries.len(),
    ensures
        assoc_map(entries.update(i, (entries[i].0, v))) == assoc_map(entries).insert(
            entries[i].0,
            v,
        ),
        distinct_keys(entries.update(i, (entries[i].0, v))),
    decreases entries.len(),
{
    let k = entries[i].0;
    let upd = entries.update(i, (k, v));
    assert(distinct_keys(upd)) by {
        assert forall|a: int, b: int|
            0 <= a < upd.len() && 0 <= b < upd.len() && a != b implies upd[a].0 != upd[b].0 by {
            assert(upd[a].0 == entries[a].0 && upd[b].0 == entries[b].0);
        }
    }
    let pre = entries.drop_last();
    assert(distinct_keys(pre)) by {
        assert forall|a: int, b: int|
            0 <= a < pre.len() && 0 <= b < pre.len() && a != b implies pre[a].0 != pre[b].0 by {
            assert(pre[a] == entries[a] && pre[b] == entries[b]);
        }
    }
    if i == entries.len() - 1 {
        assert(upd.drop_last() =~= pre);
        assert(!assoc_map(pre).contains_key(k)) by {
            lemma_assoc_contains(pre, k);
            if assoc_map(pre).contains_key(k) {
                let j = choose|j: int| 0 <= j < pre.len() && (#[trigger] pre[j]).0 == k;
                assert(entries[j] == pre[j]);
            }
        }
        assert(assoc_map(upd) =~= assoc_map(entries).insert(k, v));
    } else {
        lemma_assoc_update(pre, i, v);
        assert(upd.drop_last() =~= pre.update(i, (k, v)));
        let last = entries.last();
        assert(last.0 != k);
        assert(assoc_map(upd) =~= assoc_map(entries).insert(k, v));
    }
}

/// Appending a pair with a new key keeps the keys distinct and adds the pair to the map.
pub proof fn lemma_assoc_push<K, V>(entries: Seq<(K, V)>, k: K, v: V)
    requires
        distinct_keys(entries),
        !assoc_map(entries).contains_key(k),
    ensures
        distinct_keys(entries.push((k, v))),
        assoc_map(entries.push((k, v))) == assoc_map(entries).insert(k, v),
{
    let pushed = entries.push((k, v));
    assert(pushed.drop_last() =~= entries);
    lemma_assoc_contains(entries, k);
    assert forall|a: int, b: int|
        0 <= a < pushed.len() && 0 <= b < pushed.len() && a != b implies pushed[a].0
        != pushed[b].0 by {
        if a == entries.len() {
            assert(entries[b] == pushed[b]);
        } else if b == entries.len() {
            assert(entries[a] == pushed[a]);
        } else {
            assert(entries[a] == pushed[a] && entries[b] == pushed[b]);
        }
    }
}


broadcast use vstd::std_specs::btree::group_btree_axioms;

/// A table of items under numeric identifiers that it hands out itself.
#[derive(Debug)]
pub struct ItemContainer<T> {
    pub id: Counter,
    pub items: BTreeMap<usize, T>,
}

impl<T> ItemContainer<T> {
    pub fn new() -> (r: ItemContainer<T>)
        ensures
            r.id.value == 0,
            r.items@ == Map::<usize, T>::empty(),
    {
        ItemContainer { id: Counter::new(), items: BTreeMap::new() }
    }

    /// A fresh identifier: the next number of the counter.
    pub fn get_id(&mut self) -> (r: usize)
        requires
            old(self).id.value < usize::MAX,
        ensures
            r == old(self).id.value,
            final(self).id.value == old(self).id.value + 1,
            final(self).items@ == old(self).items@,
    {
        self.id.next()
    }

    /// Files `item` under `id`, replacing what was there.
    pub fn add_item(&mut self, id: usize, item: T)
        ensures
            final(self).items@ == old(self).items@.insert(id, item),
            final(self).id == old(self).id,
    {
        self.items.insert(id, item);
    }

    /// The item filed under `id`, which must be present.
    pub fn get(&self, id: usize) -> (r: &T)
        requires
            self.items@.contains_key(id),
        ensures
            *r == self.items@[id],
    {
        match self.items.get(&id) {
            Some(item) => item,
            None => {
                proof {
                    assert(false);
                }
                self.items.get(&id).unwrap()
            },
        }
    }
}

/// The decimal digits of a number, most significant first.
pub open spec fn decimal(n: nat) -> Seq<char>
    decreases n,
{
    if n < 10 {
        seq![digit_char(n)]
    } else {
        decimal(n / 10).push(digit_char(n % 10))
    }
}

/// The character of a decimal digit.
pub open spec fn digit_char(d: nat) -> char {
    if d == 0 {
        '0'
    } else if d == 1 {
        '1'
    } else if d == 2 {
        '2'
    } else if d == 3 {
        '3'
    } else if d == 4 {
        '4'
    } else if d == 5 {
        '5'
    } else if d == 6 {
        '6'
    } else if d == 7 {
        '7'
    } else if d == 8 {
        '8'
    } else {
        '9'
    }
}

fn digit_str(d: usize) -> (r: &'static str)
    requires
        d < 10,
    ensures
        r@ == seq![digit_char(d as nat)],
{
    let digits = "0123456789";
    proof {
        reveal_strlit("0123456789");
    }
    digits.substring_char(d, d + 1)
}

/// The decimal representation of a number, as `format!("{}", n)` writes it.
pub fn decimal_string(n: usize) -> (r: String)
    ensures
        r@ == decimal(n as nat),
    decreases n,
{
    if n < 10 {
        String::from_str(digit_str(n))
    } else {
        let mut s = decimal_string(n / 10);
        s.append(digit_str(n % 10));
        s
    }
}

/// The decimal representation of a 64-bit number, as `format!("{}", n)`
/// writes it.
pub fn decimal_string_u64(n: u64) -> (r: String)
    ensures
        r@ == decimal(n as nat),
    decreases n,
{
    if n < 10 {
        String::from_str(digit_str(n as usize))
    } else {
        let mut s = decimal_string_u64(n / 10);
        s.append(digit_str((n % 10) as usize));
        s
    }
}

/// The decimal text of an integer: a minus sign before the digits of its
/// magnitude where it is negative.
pub open spec fn signed_decimal(i: int) -> Seq<char> {
    if i < 0 {
        "-"@ + decimal((-i) as nat)
    } else {
        decimal(i as nat)
    }
}

/// The decimal text of an integer, as `format!("{}", i)` writes it.
pub fn signed_decimal_string(i: i64) -> (r: String)
    ensures
        r@ == signed_decimal(i as int),
{
    if i < 0 {
        let magnitude: u64 = (-(i as i128)) as u64;
        let mut s = String::from_str("-");
        let digits = decimal_string_u64(magnitude);
        s.append(digits.as_str());
        proof {
            reveal_strlit("-");
        }
        s
    } else {
        decimal_string_u64(i as u64)
    }
}

/// The decimal text of an integer starts with a minus sign exactly when the
/// integer is negative, its other characters are digits, and different
/// integers get different texts.
pub proof fn lemma_signed_decimal(i: int, j: int)
    ensures
        signed_decimal(i).len() >= 1,
        (signed_decimal(i)[0] == '-') == (i < 0),
        signed_decimal(i) == signed_decimal(j) ==> i == j,
{
    reveal_strlit("-");
    lemma_decimal_len(if i < 0 { (-i) as nat } else { i as nat });
    lemma_decimal_first_digit(if i < 0 { (-i) as nat } else { i as nat });
    lemma_decimal_first_digit(if j < 0 { (-j) as nat } else { j as nat });
    lemma_decimal_len(if j < 0 { (-j) as nat } else { j as nat });
    if signed_decimal(i) == signed_decimal(j) {
        if i < 0 && j < 0 {
            assert(decimal((-i) as nat) =~= signed_decimal(i).drop_first());
            assert(decimal((-j) as nat) =~= signed_decimal(j).drop_first());
            lemma_decimal_injective((-i) as nat, (-j) as nat);
        } else if i >= 0 && j >= 0 {
            lemma_decimal_injective(i as nat, j as nat);
        }
    }
}

/// The first character of a decimal representation is a digit, never a sign.
proof fn lemma_decimal_first_digit(n: nat)
    ensures
        decimal(n).len() >= 1,
        decimal(n)[0] != '-',
    decreases n,
{
    if n >= 10 {
        lemma_decimal_first_digit(n / 10);
    }
}

/// A digit character stands for exactly one digit.
proof fn lemma_digit_char_injective(a: nat, b: nat)
    requires
        a < 10,
        b < 10,
        digit_char(a) == digit_char(b),
    ensures
        a == b,
{
}

/// Decimal representations are never empty.
pub proof fn lemma_decimal_len(n: nat)
    ensures
        decimal(n).len() >= 1,
    decreases n,
{
    if n >= 10 {
        lemma_decimal_len(n / 10);
    }
}

/// Different numbers have different decimal representations.
pub proof fn lemma_decimal_injective(a: nat, b: nat)
    requires
        decimal(a) == decimal(b),
    ensures
        a == b,
    decreases a + b,
{
    lemma_decimal_len(a / 10);
    lemma_decimal_len(b / 10);
    if a < 10 && b < 10 {
        assert(decimal(a)[0] == digit_char(a));
        assert(decimal(b)[0] == digit_char(b));
        lemma_digit_char_injective(a, b);
    } else if a < 10 {
        assert(decimal(b).len() >= 2);
    } else if b < 10 {
        assert(decimal(a).len() >= 2);
    } else {
        let da = decimal(a);
        let db = decimal(b);
        assert(da.last() == digit_char(a % 10));
        assert(db.last() == digit_char(b % 10));
        lemma_digit_char_injective(a % 10, b % 10);
        assert(decimal(a / 10) =~= da.drop_last());
        assert(decimal(b / 10) =~= db.drop_last());
        lemma_decimal_injective(a / 10, b / 10);
    }
}


/// Inserting a pair with a new key anywhere keeps the keys distinct and adds
/// the pair to the map.
pub proof fn lemma_assoc_insert<K, V>(entries: Seq<(K, V)>, pos: int, k: K, v: V)
    requires
        distinct_keys(entries),
        !assoc_map(entries).contains_key(k),
        0 <= pos <= entries.len(),
    ensures
        distinct_keys(entries.insert(pos, (k, v))),
        assoc_map(entries.insert(pos, (k, v))) == assoc_map(entries).insert(k, v),
    decreases entries.len(),
{
    let ins = entries.insert(pos, (k, v));
    lemma_assoc_contains(entries, k);
    assert forall|a: int, b: int|
        0 <= a < ins.len() && 0 <= b < ins.len() && a != b implies ins[a].0 != ins[b].0 by {
        if a == pos {
            let bb = if b < pos { b } else { b - 1 };
            assert(ins[b] == entries[bb]);
        } else if b == pos {
            let aa = if a < pos { a } else { a - 1 };
            assert(ins[a] == entries[aa]);
        } else {
            let aa = if a < pos { a } else { a - 1 };
            let bb = if b < pos { b } else { b - 1 };
            assert(ins[a] == entries[aa] && ins[b] == entries[bb]);
        }
    }
    if pos == entries.len() {
        assert(ins =~= entries.push((k, v)));
        lemma_assoc_push(entries, k, v);
    } else {
        let pre = entries.drop_last();
        let last = entries.last();
        assert(distinct_keys(pre)) by {
            assert forall|a: int, b: int|
                0 <= a < pre.len() && 0 <= b < pre.len() && a != b implies pre[a].0 != pre[b].0 by {
                assert(pre[a] == entries[a] && pre[b] == entries[b]);
            }
        }
        assert(!assoc_map(pre).contains_key(k)) by {
            lemma_assoc_contains(pre, k);
            if assoc_map(pre).contains_key(k) {
                let j = choose|j: int| 0 <= j < pre.len() && (#[trigger] pre[j]).0 == k;
                assert(entries[j] == pre[j]);
            }
        }
        lemma_assoc_insert(pre, pos, k, v);
        assert(ins.drop_last() =~= pre.insert(pos, (k, v)));
        assert(ins.last() == last);
        assert(last.0 != k);
        assert(assoc_map(ins) =~= assoc_map(entries).insert(k, v));
    }
}

/// Whether `a` comes strictly before `b` in lexicographic order of characters
/// (the order of [`String`]'s `Ord`: UTF-8 bytes order like code points).
pub open spec fn seq_lt(a: Seq<char>, b: Seq<char>) -> bool
    decreases a.len(),
{
    if b.len() == 0 {
        false
    } else if a.len() == 0 {
        true
    } else if a[0] < b[0] {
        true
    } else if a[0] > b[0] {
        false
    } else {
        seq_lt(a.drop_first(), b.drop_first())
    }
}

/// The order of names is a strict total order.
pub proof fn lemma_seq_lt_total(a: Seq<char>, b: Seq<char>)
    ensures
        a != b ==> (seq_lt(a, b) || seq_lt(b, a)),
        !(seq_lt(a, b) && seq_lt(b, a)),
        !seq_lt(a, a),
    decreases a.len(),
{
    if a.len() > 0 {
        lemma_seq_lt_total(a.drop_first(), a.drop_first());
    }
    if a.len() > 0 && b.len() > 0 {
        lemma_seq_lt_total(a.drop_first(), b.drop_first());
        if a[0] == b[0] && a.drop_first() == b.drop_first() {
            assert(a =~= seq![a[0]] + a.drop_first());
            assert(b =~= seq![b[0]] + b.drop_first());
        }
    } else if a.len() == 0 && b.len() == 0 {
        assert(a =~= b);
    }
}

/// The order of names is transitive.
pub proof fn lemma_seq_lt_trans(a: Seq<char>, b: Seq<char>, c: Seq<char>)
    requires
        seq_lt(a, b),
        seq_lt(b, c),
    ensures
        seq_lt(a, c),
    decreases a.len(),
{
    if a.len() > 0 && a[0] == b[0] && b[0] == c[0] {
        lemma_seq_lt_trans(a.drop_first(), b.drop_first(), c.drop_first());
    }
}

/// Whether the string `a` comes strictly before `b`.
pub fn str_less(a: &str, b: &str) -> (r: bool)
    ensures
        r == seq_lt(a@, b@),
{
    let la = a.unicode_len();
    let lb = b.unicode_len();
    let mut i: usize = 0;
    assert(a@.subrange(0, la as int) =~= a@);
    assert(b@.subrange(0, lb as int) =~= b@);
    assert(a@.subrange(0, 0) =~= b@.subrange(0, 0));
    while i < la && i < lb
        invariant
            la == a@.len(),
            lb == b@.len(),
            i <= la,
            i <= lb,
            a@.subrange(0, i as int) == b@.subrange(0, i as int),
            seq_lt(a@, b@) == seq_lt(a@.subrange(i as int, la as int), b@.subrange(i as int, lb as int)),
        decreases la - i,
    {
        let ca = a.get_char(i);
        let cb = b.get_char(i);
        let ghost sa = a@.subrange(i as int, la as int);
        let ghost sb = b@.subrange(i as int, lb as int);
        assert(sa[0] == ca && sb[0] == cb);
        if ca < cb {
            return true;
        }
        if ca > cb {
            return false;
        }
        assert(sa.drop_first() =~= a@.subrange(i + 1, la as int));
        assert(sb.drop_first() =~= b@.subrange(i + 1, lb as int));
        assert(ca == cb);
        assert(a@.subrange(0, i + 1) =~= a@.subrange(0, i as int).push(ca));
        assert(b@.subrange(0, i + 1) =~= b@.subrange(0, i as int).push(cb));
        i += 1;
    }
    i == la && i < lb
}

/// Whether the two strings are equal.
pub fn str_eq(a: &str, b: &str) -> (r: bool)
    ensures
        r == (a@ == b@),
{
    let la = a.unicode_len();
    let lb = b.unicode_len();
    if la != lb {
        return false;
    }
    let mut i: usize = 0;
    while i < la
        invariant
            la == a@.len(),
            lb == b@.len(),
            la == lb,
            i <= la,
            forall|j: int| 0 <= j < i ==> a@[j] == b@[j],
        decreases la - i,
    {
        if a.get_char(i) != b.get_char(i) {
            return false;
        }
        i += 1;
    }
    assert(a@ =~= b@);
    true
}

/// Class identifiers in strictly increasing order: sorted, without repetition.
pub open spec fn ids_increasing(s: Seq<ClassId>) -> bool {
    forall|i: int, j: int| 0 <= i < j < s.len() ==> s[i].id < s[j].id
}

/// `s` holds exactly the classes of `prev` and `c`.
pub open spec fn same_classes_with(s: Seq<ClassId>, prev: Seq<ClassId>, c: ClassId) -> bool {
    forall|x: ClassId| s.contains(x) <==> (prev.contains(x) || x == c)
}

/// Two strictly increasing lists of classes that hold the same classes are
/// the same list: a constraint list is fixed by the set of its classes.
pub proof fn lemma_increasing_unique(a: Seq<ClassId>, b: Seq<ClassId>)
    requires
        ids_increasing(a),
        ids_increasing(b),
        forall|x: ClassId| a.contains(x) <==> b.contains(x),
    ensures
        a == b,
    decreases a.len() + b.len(),
{
    if a.len() == 0 || b.len() == 0 {
        if a.len() > 0 {
            assert(a.contains(a[0]));
        }
        if b.len() > 0 {
            assert(b.contains(b[0]));
        }
        assert(a =~= b);
    } else {
        // The smallest identifiers agree.
        assert(a.contains(a[0]));
        assert(b.contains(b[0]));
        let i = choose|i: int| 0 <= i < b.len() && b[i] == a[0];
        let j = choose|j: int| 0 <= j < a.len() && a[j] == b[0];
        if i > 0 {
            assert(b[0].id < b[i].id);
            if j > 0 {
                assert(a[0].id < a[j].id);
            }
        }
        if j > 0 {
            assert(a[0].id < a[j].id);
        }
        assert(a[0] == b[0]);
        let ta = a.drop_first();
        let tb = b.drop_first();
        assert forall|x: ClassId| ta.contains(x) <==> tb.contains(x) by {
            if ta.contains(x) {
                let k = choose|k: int| 0 <= k < ta.len() && ta[k] == x;
                assert(a[k + 1] == x);
                assert(a.contains(x));
                let m = choose|m: int| 0 <= m < b.len() && b[m] == x;
                if m == 0 {
                    assert(a[0].id < a[k + 1].id);
                }
                assert(tb[m - 1] == x);
            }
            if tb.contains(x) {
                let k = choose|k: int| 0 <= k < tb.len() && tb[k] == x;
                assert(b[k + 1] == x);
                assert(b.contains(x));
                let m = choose|m: int| 0 <= m < a.len() && a[m] == x;
                if m == 0 {
                    assert(b[0].id < b[k + 1].id);
                }
                assert(ta[m - 1] == x);
            }
        }
        lemma_increasing_unique(ta, tb);
        assert(a =~= seq![a[0]] + ta);
        assert(b =~= seq![b[0]] + tb);
    }
}

/// Adds `c` to a strictly increasing list of classes, where it belongs.
pub fn insert_class(v: &mut Vec<ClassId>, c: ClassId)
    requires
        ids_increasing(old(v)@),
    ensures
        ids_increasing(final(v)@),
        same_classes_with(final(v)@, old(v)@, c),
{
    let mut p: usize = 0;
    while p < v.len() && v[p].id < c.id
        invariant
            p <= v@.len(),
            v@ == old(v)@,
            forall|j: int| 0 <= j < p ==> (#[trigger] v@[j]).id < c.id,
        decreases v@.len() - p,
    {
        p += 1;
    }
    if p < v.len() && v[p].id == c.id {
        assert(v@[p as int] == c);
        assert forall|x: ClassId| v@.contains(x) <==> (v@.contains(x) || x == c) by {
            if x == c {
                assert(v@[p as int] == x);
            }
        }
        return;
    }
    let ghost before = v@;
    v.insert(p, c);
    proof {
        assert forall|i: int, j: int| 0 <= i < j < v@.len() implies v@[i].id < v@[j].id by {
            if j < p {
                assert(v@[i] == before[i] && v@[j] == before[j]);
            } else if i < p && j == p {
                assert(before[i].id < c.id);
            } else if i < p && j > p {
                assert(v@[j] == before[j - 1]);
            } else if i == p {
                assert(v@[j] == before[j - 1]);
            } else {
                assert(v@[i] == before[i - 1] && v@[j] == before[j - 1]);
            }
        }
        assert forall|x: ClassId| v@.contains(x) <==> (before.contains(x) || x == c) by {
            if v@.contains(x) {
                let k = choose|k: int| 0 <= k < v@.len() && v@[k] == x;
                if k < p {
                    assert(before[k] == x);
                } else if k > p {
                    assert(before[k - 1] == x);
                }
            }
            if before.contains(x) {
                let k = choose|k: int| 0 <= k < before.len() && before[k] == x;
                if k < p {
                    assert(v@[k] == x);
                } else {
                    assert(v@[k + 1] == x);
                }
            }
            if x == c {
                assert(v@[p as int] == x);
            }
        }
    }
}

/// Collects, for each key, a set of classes; keys and classes are kept in
/// increasing order, each once.
#[derive(Debug)]
pub struct Collector {
    pub items: Vec<(usize, Vec<ClassId>)>,
}

/// Keys in strictly increasing order.
pub open spec fn keys_increasing<V>(e: Seq<(usize, V)>) -> bool {
    forall|i: int, j: int| 0 <= i < j < e.len() ==> e[i].0 < e[j].0
}

/// Keys in strictly increasing order are distinct.
pub proof fn lemma_keys_increasing_distinct<V>(e: Seq<(usize, V)>)
    requires
        keys_increasing(e),
    ensures
        distinct_keys(e),
{
    assert forall|i: int, j: int| 0 <= i < e.len() && 0 <= j < e.len() && i != j implies e[i].0 != e[j].0 by {
        if i < j {
            assert(e[i].0 < e[j].0);
        } else {
            assert(e[j].0 < e[i].0);
        }
    }
}

impl Collector {
    /// The keys with their classes, in increasing order of the keys.
    pub open spec fn entries(&self) -> Seq<(usize, Seq<ClassId>)> {
        Seq::new(self.items@.len(), |i: int| (self.items@[i].0, self.items@[i].1@))
    }

    /// The classes of each key.
    pub open spec fn view(&self) -> Map<usize, Seq<ClassId>> {
        assoc_map(self.entries())
    }

    /// Keys in strictly increasing order, the classes of each too.
    pub open spec fn wf(&self) -> bool {
        &&& keys_increasing(self.entries())
        &&& forall|i: int| 0 <= i < self.entries().len() ==> ids_increasing(#[trigger] self.entries()[i].1)
    }

    pub fn new() -> (r: Collector)
        ensures
            r.wf(),
            r.entries().len() == 0,
    {
        Collector { items: Vec::new() }
    }

    /// Where `key` is, or where it belongs.
    fn position(&self, key: usize) -> (r: (usize, bool))
        requires
            self.wf(),
        ensures
            r.0 <= self.entries().len(),
            forall|j: int| 0 <= j < r.0 ==> (#[trigger] self.entries()[j]).0 < key,
            r.1 <==> (r.0 < self.entries().len() && self.entries()[r.0 as int].0 == key),
            !r.1 ==> r.0 < self.entries().len() ==> key < self.entries()[r.0 as int].0,
            r.1 == self.view().contains_key(key),
            r.1 ==> self.view()[key] == self.entries()[r.0 as int].1,
    {
        let ghost e = self.entries();
        let mut i: usize = 0;
        while i < self.items.len() && self.items[i].0 < key
            invariant
                i <= self.items@.len(),
                e == self.entries(),
                forall|j: int| 0 <= j < i ==> (#[trigger] e[j]).0 < key,
            decreases self.items@.len() - i,
        {
            assert(e[i as int].0 == self.items@[i as int].0);
            i += 1;
        }
        proof {
            lemma_keys_increasing_distinct(e);
            lemma_assoc_contains(e, key);
        }
        let found = i < self.items.len() && self.items[i].0 == key;
        proof {
            if i < self.items@.len() {
                assert(e[i as int].0 == self.items@[i as int].0);
            }
            if found {
                lemma_assoc_index(e, i as int);
            } else if assoc_map(e).contains_key(key) {
                let j = choose|j: int| 0 <= j < e.len() && (#[trigger] e[j]).0 == key;
                if j < i {
                    assert(e[j].0 < key);
                } else if j > i {
                    assert(e[i as int].0 < e[j].0);
                }
            }
        }
        (i, found)
    }

    /// Puts `key` with no class at `pos`, where it belongs.
    fn insert_key(&mut self, pos: usize, key: usize)
        requires
            old(self).wf(),
            pos <= old(self).entries().len(),
            forall|j: int| 0 <= j < pos ==> (#[trigger] old(self).entries()[j]).0 < key,
            pos < old(self).entries().len() ==> key < old(self).entries()[pos as int].0,
        ensures
            final(self).wf(),
            final(self).entries() == old(self).entries().insert(pos as int, (key, Seq::empty())),
            final(self).view() == old(self).view().insert(key, Seq::empty()),
    {
        let ghost e = self.entries();
        self.items.insert(pos, (key, Vec::new()));
        let ghost n = self.entries();
        proof {
            assert(n =~= e.insert(pos as int, (key, Seq::empty())));
            assert forall|i: int, j: int| 0 <= i < j < n.len() implies n[i].0 < n[j].0 by {
                if j < pos {
                    assert(n[i] == e[i] && n[j] == e[j]);
                } else if i < pos && j == pos {
                } else if i < pos && j > pos {
                    assert(n[i] == e[i] && n[j] == e[j - 1]);
                    assert(e[i].0 < e[pos as int].0 || i == pos);
                } else if i == pos {
                    assert(n[j] == e[j - 1]);
                    if j - 1 > pos {
                        assert(e[pos as int].0 < e[j - 1].0);
                    }
                } else {
                    assert(n[i] == e[i - 1] && n[j] == e[j - 1]);
                }
            }
            assert forall|i: int| 0 <= i < n.len() implies ids_increasing(#[trigger] n[i].1) by {
                if i < pos {
                    assert(n[i] == e[i]);
                } else if i > pos {
                    assert(n[i] == e[i - 1]);
                }
            }
            lemma_keys_increasing_distinct(e);
            lemma_assoc_contains(e, key);
            if assoc_map(e).contains_key(key) {
                let j = choose|j: int| 0 <= j < e.len() && (#[trigger] e[j]).0 == key;
                if j >= pos {
                    if j > pos {
                        assert(e[pos as int].0 < e[j].0);
                    }
                }
            }
            lemma_assoc_insert(e, pos as int, key, Seq::empty());
        }
    }

    /// Files `key`, with no class where it is new.
    pub fn add_empty(&mut self, key: usize)
        requires
            old(self).wf(),
        ensures
            final(self).wf(),
            final(self).view() == (if old(self).view().contains_key(key) {
                old(self).view()
            } else {
                old(self).view().insert(key, Seq::empty())
            }),
    {
        let (pos, found) = self.position(key);
        if !found {
            self.insert_key(pos, key);
        }
    }

    /// Adds `value` to the classes of `key`, filing `key` where it is new.
    pub fn add(&mut self, key: usize, value: ClassId)
        requires
            old(self).wf(),
        ensures
            final(self).wf(),
            final(self).view().dom() == old(self).view().dom().insert(key),
            forall|k: usize| k != key && #[trigger] old(self).view().contains_key(k) ==> final(self).view()[k]
                == old(self).view()[k],
            same_classes_with(
                final(self).view()[key],
                if old(self).view().contains_key(key) {
                    old(self).view()[key]
                } else {
                    Seq::empty()
                },
                value,
            ),
    {
        let (pos, found) = self.position(key);
        if !found {
            self.insert_key(pos, key);
        }
        let ghost e = self.entries();
        let ghost m = self.view();
        proof {
            assert(e[pos as int].0 == key);
            lemma_keys_increasing_distinct(e);
            lemma_assoc_index(e, pos as int);
            assert(ids_increasing(e[pos as int].1));
        }
        let (k, mut classes) = self.items.remove(pos);
        assert(classes@ == e[pos as int].1);
        insert_class(&mut classes, value);
        let ghost cs = classes@;
        self.items.insert(pos, (k, classes));
        proof {
            assert(self.entries() =~= e.update(pos as int, (key, cs)));
            lemma_assoc_update(e, pos as int, cs);
            assert forall|i: int| 0 <= i < self.entries().len() implies ids_increasing(#[trigger] self.entries()[i].1) by {
                if i != pos {
                    assert(self.entries()[i] == e[i]);
                }
            }
            assert(self.view().dom() =~= old(self).view().dom().insert(key));
        }
    }
}

} // verus!

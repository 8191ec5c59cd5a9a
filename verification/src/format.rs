//! Text forms of graph values: lists, maps with their entries in key order, nodes and
//! relationships.
//!
//! A map's entries are given with each value already rendered as text; the entries are put
//! in the byte order of their keys, so that the text of a map does not depend on the order
//! in which its entries were visited.
use vstd::prelude::*;
use vstd::multiset::Multiset;
use vstd::utf8::encode_utf8;

verus! {

broadcast use vstd::multiset::group_multiset_axioms, vstd::seq_lib::group_to_multiset_ensures;

// ---------------------------------------------------------------------------------------
// The byte order of keys
// ---------------------------------------------------------------------------------------

/// Lexicographic order of byte strings, a prefix coming first: the order in which `str`
/// values compare.
pub open spec fn bytes_le(a: Seq<u8>, b: Seq<u8>) -> bool
    decreases a.len(),
{
    if a.len() == 0 {
        true
    } else if b.len() == 0 {
        false
    } else if a[0] != b[0] {
        a[0] < b[0]
    } else {
        bytes_le(a.drop_first(), b.drop_first())
    }
}

/// Whether byte string `a` comes before `b` at the first place where they differ, which
/// lies within both.
pub open spec fn differs_first_below(a: Seq<u8>, b: Seq<u8>) -> bool {
    exists|i: int|
        0 <= i < a.len() && i < b.len() && a.subrange(0, i) == b.subrange(0, i) && #[trigger] a[i]
            < b[i]
}

/// The byte order is the lexicographic order of `str`: `a` comes before or with `b` exactly
/// when `a` is a prefix of `b`, or at the first index where they differ `a` holds the
/// smaller byte.
pub proof fn lemma_bytes_le_is_lexicographic(a: Seq<u8>, b: Seq<u8>)
    ensures
        bytes_le(a, b) <==> (a.len() <= b.len() && a == b.subrange(0, a.len() as int))
            || differs_first_below(a, b),
    decreases a.len(),
{
    if a.len() == 0 {
        assert(a =~= b.subrange(0, 0));
    } else if b.len() == 0 {
    } else if a[0] != b[0] {
        if a[0] < b[0] {
            assert(a.subrange(0, 0) =~= b.subrange(0, 0));
            assert(differs_first_below(a, b));
        } else {
            if differs_first_below(a, b) {
                let i = choose|i: int|
                    0 <= i < a.len() && i < b.len() && a.subrange(0, i) == b.subrange(0, i)
                        && #[trigger] a[i] < b[i];
                if i > 0 {
                    assert(a.subrange(0, i)[0] == b.subrange(0, i)[0]);
                }
            }
            if a.len() <= b.len() && a == b.subrange(0, a.len() as int) {
                assert(a[0] == b.subrange(0, a.len() as int)[0]);
            }
        }
    } else {
        let a1 = a.drop_first();
        let b1 = b.drop_first();
        lemma_bytes_le_is_lexicographic(a1, b1);
        if a.len() <= b.len() {
            assert(a == b.subrange(0, a.len() as int) <==> a1 == b1.subrange(0, a1.len() as int)) by {
                if a == b.subrange(0, a.len() as int) {
                    assert(a1 =~= b1.subrange(0, a1.len() as int));
                }
                if a1 == b1.subrange(0, a1.len() as int) {
                    assert forall|k: int| 0 <= k < a.len() implies a[k] == b.subrange(
                        0,
                        a.len() as int,
                    )[k] by {
                        if k > 0 {
                            assert(a[k] == a1[k - 1]);
                            assert(a1[k - 1] == b1.subrange(0, a1.len() as int)[k - 1]);
                        }
                    }
                    assert(a =~= b.subrange(0, a.len() as int));
                }
            }
        }
        assert(differs_first_below(a, b) <==> differs_first_below(a1, b1)) by {
            if differs_first_below(a, b) {
                let i = choose|i: int|
                    0 <= i < a.len() && i < b.len() && a.subrange(0, i) == b.subrange(0, i)
                        && #[trigger] a[i] < b[i];
                assert(i > 0);
                assert(a1.subrange(0, i - 1) =~= a.subrange(0, i).drop_first());
                assert(b1.subrange(0, i - 1) =~= b.subrange(0, i).drop_first());
                assert(a1[i - 1] < b1[i - 1]);
            }
            if differs_first_below(a1, b1) {
                let j = choose|j: int|
                    0 <= j < a1.len() && j < b1.len() && a1.subrange(0, j) == b1.subrange(0, j)
                        && #[trigger] a1[j] < b1[j];
                assert(a.subrange(0, j + 1) =~= seq![a[0]] + a1.subrange(0, j));
                assert(b.subrange(0, j + 1) =~= seq![b[0]] + b1.subrange(0, j));
                assert(a[j + 1] < b[j + 1]);
            }
        }
    }
}

/// On single bytes the byte order is the order of the bytes.
pub proof fn lemma_bytes_le_single(x: u8, y: u8)
    ensures
        bytes_le(seq![x], seq![y]) == (x <= y),
{
    reveal_with_fuel(bytes_le, 2);
}

/// Every byte string comes with itself.
pub proof fn lemma_bytes_le_reflexive(a: Seq<u8>)
    ensures
        bytes_le(a, a),
    decreases a.len(),
{
    if a.len() > 0 {
        lemma_bytes_le_reflexive(a.drop_first());
    }
}

/// Any two byte strings are ordered one way or the other.
pub proof fn lemma_bytes_le_total(a: Seq<u8>, b: Seq<u8>)
    ensures
        bytes_le(a, b) || bytes_le(b, a),
    decreases a.len(),
{
    if a.len() > 0 && b.len() > 0 && a[0] == b[0] {
        lemma_bytes_le_total(a.drop_first(), b.drop_first());
    }
}

/// The byte order is transitive.
pub proof fn lemma_bytes_le_transitive(a: Seq<u8>, b: Seq<u8>, c: Seq<u8>)
    requires
        bytes_le(a, b),
        bytes_le(b, c),
    ensures
        bytes_le(a, c),
    decreases a.len(),
{
    if a.len() > 0 && b.len() > 0 && c.len() > 0 && a[0] == b[0] && b[0] == c[0] {
        lemma_bytes_le_transitive(a.drop_first(), b.drop_first(), c.drop_first());
    }
}

/// Byte strings that are ordered both ways are equal.
pub proof fn lemma_bytes_le_antisymmetric(a: Seq<u8>, b: Seq<u8>)
    requires
        bytes_le(a, b),
        bytes_le(b, a),
    ensures
        a == b,
    decreases a.len(),
{
    if a.len() > 0 {
        lemma_bytes_le_antisymmetric(a.drop_first(), b.drop_first());
        assert(a =~= seq![a[0]] + a.drop_first());
        assert(b =~= seq![b[0]] + b.drop_first());
    }
}

/// One step of the comparison: equal bytes at `i` leave the order to what follows them.
proof fn lemma_bytes_le_step(a: Seq<u8>, b: Seq<u8>, i: int)
    requires
        0 <= i < a.len(),
        i < b.len(),
        a[i] == b[i],
    ensures
        bytes_le(a.skip(i), b.skip(i)) == bytes_le(a.skip(i + 1), b.skip(i + 1)),
{
    assert(a.skip(i).drop_first() =~= a.skip(i + 1));
    assert(b.skip(i).drop_first() =~= b.skip(i + 1));
}

/// Whether `a` comes before `b` or equals it in byte order.
pub fn bytes_le_exec(a: &[u8], b: &[u8]) -> (r: bool)
    ensures
        r == bytes_le(a@, b@),
        r <==> (a@.len() <= b@.len() && a@ == b@.subrange(0, a@.len() as int))
            || differs_first_below(a@, b@),
{
    proof {
        lemma_bytes_le_is_lexicographic(a@, b@);
    }
    let mut i: usize = 0;
    assert(a@.skip(0) =~= a@);
    assert(b@.skip(0) =~= b@);
    while i < a.len() && i < b.len()
        invariant
            i <= a@.len(),
            i <= b@.len(),
            bytes_le(a@, b@) == bytes_le(a@.skip(i as int), b@.skip(i as int)),
        decreases a@.len() - i,
    {
        if a[i] != b[i] {
            proof {
                lemma_bytes_le_is_lexicographic(a@, b@);
            }
            return a[i] < b[i];
        }
        proof {
            lemma_bytes_le_step(a@, b@, i as int);
        }
        i = i + 1;
    }
    i == a.len()
}

// ---------------------------------------------------------------------------------------
// Entries in key order
// ---------------------------------------------------------------------------------------

/// The bytes of a key, in UTF-8.
pub open spec fn key_bytes(key: String) -> Seq<u8> {
    encode_utf8(key@)
}

/// Whether entry `x` comes before entry `y` or with it, by their keys.
pub open spec fn entry_le(x: (String, String), y: (String, String)) -> bool {
    bytes_le(key_bytes(x.0), key_bytes(y.0))
}

/// Whether the entries are in the byte order of their keys.
pub open spec fn sorted_by_key(s: Seq<(String, String)>) -> bool {
    forall|i: int, j: int| 0 <= i < j < s.len() ==> entry_le(#[trigger] s[i], #[trigger] s[j])
}

/// Whether no two entries have the same key.
pub open spec fn distinct_keys(s: Seq<(String, String)>) -> bool {
    forall|i: int, j: int| 0 <= i < j < s.len() ==> (#[trigger] s[i]).0@ != (#[trigger] s[j]).0@
}

/// Whether the key of `a` comes before that of `b` or equals it in byte order.
fn key_le(a: &String, b: &String) -> (r: bool)
    ensures
        r == bytes_le(key_bytes(*a), key_bytes(*b)),
{
    bytes_le_exec(a.as_str().as_bytes(), b.as_str().as_bytes())
}

/// The entries, in the byte order of their keys.
pub fn sort_entries_by_key(entries: Vec<(String, String)>) -> (sorted: Vec<(String, String)>)
    ensures
        sorted@.to_multiset() == entries@.to_multiset(),
        sorted_by_key(sorted@),
{
    let mut rest = entries;
    let mut sorted: Vec<(String, String)> = Vec::new();
    while rest.len() > 0
        invariant
            sorted@.to_multiset().add(rest@.to_multiset()) == entries@.to_multiset(),
            sorted_by_key(sorted@),
            forall|i: int, j: int|
                0 <= i < sorted@.len() && 0 <= j < rest@.len() ==> entry_le(
                    #[trigger] sorted@[i],
                    #[trigger] rest@[j],
                ),
        decreases rest@.len(),
    {
        let mut m: usize = 0;
        let mut k: usize = 1;
        proof {
            lemma_bytes_le_reflexive(key_bytes(rest@[0].0));
        }
        while k < rest.len()
            invariant
                m < rest@.len(),
                1 <= k <= rest@.len(),
                forall|j: int| 0 <= j < k ==> entry_le(rest@[m as int], #[trigger] rest@[j]),
            decreases rest@.len() - k,
        {
            if key_le(&rest[k].0, &rest[m].0) {
                proof {
                    assert forall|j: int| 0 <= j < k implies entry_le(
                        rest@[k as int],
                        #[trigger] rest@[j],
                    ) by {
                        lemma_bytes_le_transitive(
                            key_bytes(rest@[k as int].0),
                            key_bytes(rest@[m as int].0),
                            key_bytes(rest@[j].0),
                        );
                    }
                    lemma_bytes_le_reflexive(key_bytes(rest@[k as int].0));
                }
                m = k;
            } else {
                proof {
                    lemma_bytes_le_total(key_bytes(rest@[k as int].0), key_bytes(rest@[m as int].0));
                }
            }
            k = k + 1;
        }
        let ghost old_rest = rest@;
        let ghost old_sorted = sorted@;
        let x = rest.remove(m);
        proof {
            assert(old_rest.remove(m as int).to_multiset() == old_rest.to_multiset().remove(x));
            assert(old_rest.to_multiset().count(x) > 0);
            assert(old_sorted.push(x).to_multiset() == old_sorted.to_multiset().insert(x));
        }
        sorted.push(x);
        proof {
            assert(sorted@.to_multiset().add(rest@.to_multiset()) =~= entries@.to_multiset());
            assert forall|i: int, j: int| 0 <= i < j < sorted@.len() implies entry_le(
                #[trigger] sorted@[i],
                #[trigger] sorted@[j],
            ) by {
                if j == sorted@.len() - 1 {
                    assert(entry_le(old_sorted[i], old_rest[m as int]));
                } else {
                    assert(entry_le(old_sorted[i], old_sorted[j]));
                }
            }
            assert forall|i: int, j: int|
                0 <= i < sorted@.len() && 0 <= j < rest@.len() implies entry_le(
                #[trigger] sorted@[i],
                #[trigger] rest@[j],
            ) by {
                let jj = if j < m {
                    j
                } else {
                    j + 1
                };
                assert(rest@[j] == old_rest[jj]);
                if i == sorted@.len() - 1 {
                    assert(entry_le(old_rest[m as int], old_rest[jj]));
                } else {
                    assert(entry_le(old_sorted[i], old_rest[jj]));
                }
            }
        }
    }
    proof {
        assert(rest@.to_multiset() =~= Multiset::empty());
        assert(sorted@.to_multiset() =~= entries@.to_multiset());
    }
    sorted
}

// ---------------------------------------------------------------------------------------
// Text forms
// ---------------------------------------------------------------------------------------

/// The parts joined, with `sep` between each two.
pub open spec fn joined(parts: Seq<Seq<char>>, sep: Seq<char>) -> Seq<char>
    decreases parts.len(),
{
    if parts.len() == 0 {
        Seq::empty()
    } else if parts.len() == 1 {
        parts[0]
    } else {
        joined(parts.drop_last(), sep) + sep + parts.last()
    }
}

/// The texts of the strings.
pub open spec fn texts(parts: Seq<String>) -> Seq<Seq<char>> {
    parts.map_values(|p: String| p@)
}

/// The text of one map entry: `'key': value`.
pub open spec fn entry_text(e: (String, String)) -> Seq<char> {
    "'"@ + e.0@ + "': "@ + e.1@
}

/// The text of a map whose entries come in this order: `{'k1': v1, 'k2': v2}`.
pub open spec fn map_text(entries: Seq<(String, String)>) -> Seq<char> {
    "{"@ + joined(entries.map_values(|e: (String, String)| entry_text(e)), ", "@) + "}"@
}

/// The strings joined, with `sep` between each two.
pub fn join(parts: &Vec<String>, sep: &str) -> (s: String)
    ensures
        s@ == joined(texts(parts@), sep@),
{
    let mut s = String::new();
    let mut i: usize = 0;
    while i < parts.len()
        invariant
            i <= parts@.len(),
            s@ == joined(texts(parts@).take(i as int), sep@),
        decreases parts@.len() - i,
    {
        proof {
            assert(texts(parts@).take(i + 1).drop_last() =~= texts(parts@).take(i as int));
        }
        if i > 0 {
            s.append(sep);
        }
        s.append(parts[i].as_str());
        i = i + 1;
    }
    proof {
        assert(texts(parts@).take(parts@.len() as int) =~= texts(parts@));
    }
    s
}

/// The text of a map whose entries come in the order given.
pub fn map_to_string(entries: &Vec<(String, String)>) -> (s: String)
    ensures
        s@ == map_text(entries@),
{
    let ghost parts = entries@.map_values(|e: (String, String)| entry_text(e));
    let mut s = String::new();
    let mut i: usize = 0;
    while i < entries.len()
        invariant
            i <= entries@.len(),
            parts == entries@.map_values(|e: (String, String)| entry_text(e)),
            s@ == joined(parts.take(i as int), ", "@),
        decreases entries@.len() - i,
    {
        proof {
            assert(parts.take(i + 1).drop_last() =~= parts.take(i as int));
        }
        if i > 0 {
            s.append(", ");
        }
        s.append("'");
        s.append(entries[i].0.as_str());
        s.append("': ");
        s.append(entries[i].1.as_str());
        i = i + 1;
    }
    proof {
        assert(parts.take(entries@.len() as int) =~= parts);
    }
    let mut r = String::from_str("{");
    r.append(s.as_str());
    r.append("}");
    r
}

/// The text of a map, with its entries in the byte order of their keys; each entry is a key
/// and the text of its value.
pub fn mg_map_to_string(entries: Vec<(String, String)>) -> (s: String)
    ensures
        exists|sorted: Seq<(String, String)>|
            #![trigger map_text(sorted)]
            sorted.to_multiset() == entries@.to_multiset() && sorted_by_key(sorted) && s@
                == map_text(sorted),
{
    let sorted = sort_entries_by_key(entries);
    let s = map_to_string(&sorted);
    assert(s@ == map_text(sorted@));
    s
}

/// The text of a node: its labels and the text of its properties, `(:label1, label2 {...})`.
pub fn node_to_string(labels: &Vec<String>, properties: &str) -> (s: String)
    ensures
        s@ == "(:"@ + joined(texts(labels@), ", "@) + " "@ + properties@ + ")"@,
{
    let joined_labels = join(labels, ", ");
    let mut s = String::from_str("(:");
    s.append(joined_labels.as_str());
    s.append(" ");
    s.append(properties);
    s.append(")");
    s
}

/// The text of a relationship: its type and the text of its properties, `[:type {...}]`.
pub fn relationship_to_string(type_: &str, properties: &str) -> (s: String)
    ensures
        s@ == "[:"@ + type_@ + " "@ + properties@ + "]"@,
{
    let mut s = String::from_str("[:");
    s.append(type_);
    s.append(" ");
    s.append(properties);
    s.append("]");
    s
}

/// The text in single quotes, as string and temporal values are shown.
pub fn quoted(text: &str) -> (s: String)
    ensures
        s@ == "'"@ + text@ + "'"@,
{
    let mut s = String::from_str("'");
    s.append(text);
    s.append("'");
    s
}

// ---------------------------------------------------------------------------------------
// The text of a map does not depend on the order of its entries
// ---------------------------------------------------------------------------------------

/// Equal key bytes mean equal keys.
proof fn lemma_key_bytes_injective(a: String, b: String)
    requires
        key_bytes(a) == key_bytes(b),
    ensures
        a@ == b@,
{
    vstd::utf8::encode_utf8_decode_utf8(a@);
    vstd::utf8::encode_utf8_decode_utf8(b@);
}

/// Entries with the same entries as a sequence whose keys are distinct have distinct keys
/// too.
proof fn lemma_distinct_keys_permutation(e: Seq<(String, String)>, s: Seq<(String, String)>)
    requires
        distinct_keys(e),
        s.to_multiset() == e.to_multiset(),
    ensures
        distinct_keys(s),
{
    assert(e.no_duplicates()) by {
        assert forall|i: int, j: int| 0 <= i < e.len() && 0 <= j < e.len() && i != j implies e[i]
            != e[j] by {
            if i < j {
                assert(e[i].0@ != e[j].0@);
            } else {
                assert(e[j].0@ != e[i].0@);
            }
        }
    }
    e.lemma_multiset_has_no_duplicates();
    s.lemma_multiset_has_no_duplicates_conv();
    assert forall|i: int, j: int| 0 <= i < j < s.len() implies (#[trigger] s[i]).0@ != (
    #[trigger] s[j]).0@ by {
        assert(s.to_multiset().count(s[i]) > 0);
        assert(s.to_multiset().count(s[j]) > 0);
        assert(e.contains(s[i]));
        assert(e.contains(s[j]));
        let ii = choose|k: int| 0 <= k < e.len() && e[k] == s[i];
        let jj = choose|k: int| 0 <= k < e.len() && e[k] == s[j];
        assert(s[i] != s[j]);
        assert(ii != jj);
        if ii < jj {
            assert(e[ii].0@ != e[jj].0@);
        } else {
            assert(e[jj].0@ != e[ii].0@);
        }
    }
}

/// Two sequences in key order with the same entries and no key twice are the same
/// sequence.
pub proof fn lemma_sorted_entries_unique(s1: Seq<(String, String)>, s2: Seq<(String, String)>)
    requires
        s1.to_multiset() == s2.to_multiset(),
        sorted_by_key(s1),
        sorted_by_key(s2),
        distinct_keys(s1),
    ensures
        s1 == s2,
    decreases s1.len(),
{
    assert(s1.len() == s1.to_multiset().len());
    assert(s2.len() == s2.to_multiset().len());
    if s1.len() == 0 {
        assert(s1 =~= s2);
    } else {
        let a = s1[0];
        let b = s2[0];
        assert(s2.to_multiset().count(b) > 0);
        assert(s1.contains(b));
        assert(s1.to_multiset().count(a) > 0);
        assert(s2.contains(a));
        let i = choose|k: int| 0 <= k < s1.len() && s1[k] == b;
        let j = choose|k: int| 0 <= k < s2.len() && s2[k] == a;
        if i > 0 {
            assert(entry_le(s1[0], s1[i]));
        } else {
            lemma_bytes_le_reflexive(key_bytes(a.0));
        }
        if j > 0 {
            assert(entry_le(s2[0], s2[j]));
        } else {
            lemma_bytes_le_reflexive(key_bytes(a.0));
        }
        lemma_bytes_le_antisymmetric(key_bytes(a.0), key_bytes(b.0));
        lemma_key_bytes_injective(a.0, b.0);
        if i > 0 {
            assert(s1[0].0@ != s1[i].0@);
        }
        assert(a == b);
        let t1 = s1.drop_first();
        let t2 = s2.drop_first();
        assert(s1.remove(0) =~= t1);
        assert(s2.remove(0) =~= t2);
        assert(t1.to_multiset() =~= t2.to_multiset());
        assert(sorted_by_key(t1)) by {
            assert forall|p: int, q: int| 0 <= p < q < t1.len() implies entry_le(
                #[trigger] t1[p],
                #[trigger] t1[q],
            ) by {
                assert(entry_le(s1[p + 1], s1[q + 1]));
            }
        }
        assert(sorted_by_key(t2)) by {
            assert forall|p: int, q: int| 0 <= p < q < t2.len() implies entry_le(
                #[trigger] t2[p],
                #[trigger] t2[q],
            ) by {
                assert(entry_le(s2[p + 1], s2[q + 1]));
            }
        }
        assert(distinct_keys(t1)) by {
            assert forall|p: int, q: int| 0 <= p < q < t1.len() implies (#[trigger] t1[p]).0@ != (
            #[trigger] t1[q]).0@ by {
                assert(s1[p + 1].0@ != s1[q + 1].0@);
            }
        }
        lemma_sorted_entries_unique(t1, t2);
        assert(s1 =~= seq![a] + t1);
        assert(s2 =~= seq![b] + t2);
    }
}

/// The text of a map does not depend on the order in which its entries were given: two
/// orders of the same entries, with no key twice, once put in key order, have one text.
pub proof fn lemma_map_text_independent_of_order(
    e1: Seq<(String, String)>,
    e2: Seq<(String, String)>,
    s1: Seq<(String, String)>,
    s2: Seq<(String, String)>,
)
    requires
        e1.to_multiset() == e2.to_multiset(),
        distinct_keys(e1),
        s1.to_multiset() == e1.to_multiset(),
        sorted_by_key(s1),
        s2.to_multiset() == e2.to_multiset(),
        sorted_by_key(s2),
    ensures
        s1 == s2,
        map_text(s1) == map_text(s2),
{
    lemma_distinct_keys_permutation(e1, s1);
    lemma_sorted_entries_unique(s1, s2);
}

} // verus!

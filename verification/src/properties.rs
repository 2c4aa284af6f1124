//! Property lists and their rendering as a JSON object.
//!
//! A property list holds `key=value` properties separated by `;` or by line breaks. Keys and
//! values are trimmed of white space; blank pieces and pieces that start with `#` (comments)
//! hold no property.
use vstd::prelude::*;
use crate::json_text::json_quoted;
use crate::outside::json_object;
use crate::text::{
    chars_of, before_first, after_first, seq_join, string_of, text_less, less_text, trim, trimmed, lemma_count_before, lemma_count_before_bounds, lemma_text_less_order,
};

verus! {

/// Whether `c` ends a property: `;` or a line break.
pub open spec fn is_property_end(c: char) -> bool {
    c == ';' || c == '\n'
}

/// The pieces of `s` between the characters that end a property, in order: `s.split` on
/// `;` and line breaks, so that `n` such characters give `n + 1` pieces.
pub open spec fn property_pieces(s: Seq<char>) -> Seq<Seq<char>>
    decreases s.len(),
{
    if s.len() == 0 {
        seq![Seq::<char>::empty()]
    } else {
        let pieces = property_pieces(s.drop_last());
        if is_property_end(s.last()) {
            pieces.push(Seq::<char>::empty())
        } else {
            pieces.update(pieces.len() - 1, pieces.last().push(s.last()))
        }
    }
}

/// Whether a piece holds no property: blank once trimmed, or a comment starting with `#`.
pub open spec fn is_skipped(piece: Seq<char>) -> bool {
    trim(piece).len() == 0 || trim(piece)[0] == '#'
}

/// The key and the value of one property: the text before the first `=` and the text after
/// it (empty when the property has no `=`), each trimmed of white space.
pub open spec fn property_pair(piece: Seq<char>) -> (Seq<char>, Seq<char>) {
    (
        trim(before_first(piece, '=')),
        match after_first(piece, '=') {
            Some(v) => trim(v),
            None => Seq::empty(),
        },
    )
}

/// The properties written in `pieces`, in order, skipping blank pieces and comments.
pub open spec fn property_pairs(pieces: Seq<Seq<char>>) -> Seq<(Seq<char>, Seq<char>)>
    decreases pieces.len(),
{
    if pieces.len() == 0 {
        Seq::empty()
    } else {
        let rest = property_pairs(pieces.drop_last());
        if is_skipped(pieces.last()) {
            rest
        } else {
            rest.push(property_pair(pieces.last()))
        }
    }
}

/// The position of the first entry of `m` with key `k`.
pub open spec fn key_index(m: Seq<(Seq<char>, Seq<char>)>, k: Seq<char>) -> Option<nat>
    decreases m.len(),
{
    if m.len() == 0 {
        None
    } else if m[0].0 == k {
        Some(0)
    } else {
        match key_index(m.drop_first(), k) {
            Some(i) => Some(i + 1),
            None => None,
        }
    }
}

/// The number of leading entries of `m` whose key comes before `k`: where an entry with key
/// `k` goes in entries sorted by key.
pub open spec fn insert_position(m: Seq<(Seq<char>, Seq<char>)>, k: Seq<char>) -> nat
    decreases m.len(),
{
    if m.len() == 0 {
        0
    } else if text_less(m[0].0, k) {
        1 + insert_position(m.drop_first(), k)
    } else {
        0
    }
}

/// `m` with the property `kv` set: its value replaces that of the entry with the same key,
/// or it is inserted where its key goes when no entry has that key.
pub open spec fn set_property(m: Seq<(Seq<char>, Seq<char>)>, kv: (Seq<char>, Seq<char>)) -> Seq<(Seq<char>, Seq<char>)> {
    match key_index(m, kv.0) {
        Some(i) => m.update(i as int, kv),
        None => m.insert(insert_position(m, kv.0) as int, kv),
    }
}

/// The properties `pairs` set one after the other: one entry per key, sorted by key, each
/// with the last value given to it.
pub open spec fn merged(pairs: Seq<(Seq<char>, Seq<char>)>) -> Seq<(Seq<char>, Seq<char>)>
    decreases pairs.len(),
{
    if pairs.len() == 0 {
        Seq::empty()
    } else {
        set_property(merged(pairs.drop_last()), pairs.last())
    }
}

/// The properties of a property list, sorted by key: `;` and line breaks separate
/// properties, and a key set twice keeps its last value.
pub open spec fn property_entries(text: Seq<char>) -> Seq<(Seq<char>, Seq<char>)> {
    merged(property_pairs(property_pieces(text)))
}

/// The JSON member `"key":"value"` of an entry whose key and value are already quoted.
pub open spec fn member_text(quoted: (Seq<char>, Seq<char>)) -> Seq<char> {
    quoted.0 + seq![':'] + quoted.1
}

/// The JSON object whose members are the already quoted `quoted` pairs, written compactly.
pub open spec fn object_text(quoted: Seq<(Seq<char>, Seq<char>)>) -> Seq<char> {
    seq!['{'] + seq_join(quoted.map_values(|e: (Seq<char>, Seq<char>)| member_text(e)), seq![',']) + seq!['}']
}

/// The JSON object of a property list, each key and value quoted as a JSON string.
pub open spec fn properties_json(text: Seq<char>) -> Seq<char> {
    object_text(
        property_entries(text).map_values(
            |e: (Seq<char>, Seq<char>)| (json_quoted(e.0), json_quoted(e.1)),
        ),
    )
}

/// The views of a list of owned pairs.
pub open spec fn pairs_view(v: Seq<(String, String)>) -> Seq<(Seq<char>, Seq<char>)> {
    v.map_values(|e: (String, String)| (e.0@, e.1@))
}

/// Finds the entry of `m` with key `k`.
fn find_key(m: &Vec<(String, String)>, k: &String) -> (r: Option<usize>)
    ensures
        match r {
            Some(i) => key_index(pairs_view(m@), k@) == Some(i as nat),
            None => key_index(pairs_view(m@), k@) is None,
        },
{
    let ghost mv = pairs_view(m@);
    let mut i: usize = 0;
    while i < m.len()
        invariant
            i <= m.len(),
            mv == pairs_view(m@),
            forall|j: int| 0 <= j < i ==> mv[j].0 != k@,
        decreases m.len() - i,
    {
        if m[i].0 == *k {
            proof {
                lemma_key_index_first(mv, k@, i as int);
            }
            return Some(i);
        }
        i = i + 1;
    }
    proof {
        lemma_key_index_absent(mv, k@);
    }
    None
}

proof fn lemma_key_index_first(m: Seq<(Seq<char>, Seq<char>)>, k: Seq<char>, i: int)
    requires
        0 <= i < m.len(),
        m[i].0 == k,
        forall|j: int| 0 <= j < i ==> m[j].0 != k,
    ensures
        key_index(m, k) == Some(i as nat),
    decreases i,
{
    if i > 0 {
        assert forall|j: int| 0 <= j < i - 1 implies m.drop_first()[j].0 != k by {
            assert(m.drop_first()[j] == m[j + 1]);
        }
        lemma_key_index_first(m.drop_first(), k, i - 1);
    }
}

proof fn lemma_key_index_absent(m: Seq<(Seq<char>, Seq<char>)>, k: Seq<char>)
    requires
        forall|j: int| 0 <= j < m.len() ==> m[j].0 != k,
    ensures
        key_index(m, k) is None,
    decreases m.len(),
{
    if m.len() > 0 {
        assert forall|j: int| 0 <= j < m.len() - 1 implies m.drop_first()[j].0 != k by {
            assert(m.drop_first()[j] == m[j + 1]);
        }
        lemma_key_index_absent(m.drop_first(), k);
    }
}

proof fn lemma_key_index_none(m: Seq<(Seq<char>, Seq<char>)>, k: Seq<char>)
    ensures
        key_index(m, k) is None ==> forall|j: int| 0 <= j < m.len() ==> m[j].0 != k,
    decreases m.len(),
{
    if m.len() > 0 && m[0].0 != k {
        lemma_key_index_none(m.drop_first(), k);
        assert forall|j: int| 0 < j < m.len() implies m[j] == m.drop_first()[j - 1] by {}
    }
}

/// Whether no two entries of `m` share a key.
pub open spec fn distinct_keys(m: Seq<(Seq<char>, Seq<char>)>) -> bool {
    forall|i: int, j: int| 0 <= i < j < m.len() ==> m[i].0 != m[j].0
}

/// Whether `pairs[i]` is the last property of `pairs` with its key.
pub open spec fn last_with_key(pairs: Seq<(Seq<char>, Seq<char>)>, i: int) -> bool {
    forall|j: int| i < j < pairs.len() ==> pairs[j].0 != pairs[i].0
}

/// Whether `p` is one of the entries of `s`.
pub open spec fn holds_pair(s: Seq<(Seq<char>, Seq<char>)>, p: (Seq<char>, Seq<char>)) -> bool {
    exists|i: int| 0 <= i < s.len() && s[i] == p
}

/// Whether some entry of `s` has the key `k`.
pub open spec fn holds_key(s: Seq<(Seq<char>, Seq<char>)>, k: Seq<char>) -> bool {
    exists|i: int| 0 <= i < s.len() && s[i].0 == k
}

/// Whether each entry of `m` is one of the properties `pairs`.
pub open spec fn entries_from(m: Seq<(Seq<char>, Seq<char>)>, pairs: Seq<(Seq<char>, Seq<char>)>) -> bool {
    forall|e: int| 0 <= e < m.len() ==> holds_pair(pairs, #[trigger] m[e])
}

/// Whether every key of the properties `pairs` has an entry in `m`.
pub open spec fn keys_covered(m: Seq<(Seq<char>, Seq<char>)>, pairs: Seq<(Seq<char>, Seq<char>)>) -> bool {
    forall|i: int| 0 <= i < pairs.len() ==> holds_key(m, #[trigger] pairs[i].0)
}

/// Whether the last property of `pairs` with each key is an entry of `m`.
pub open spec fn last_values_kept(m: Seq<(Seq<char>, Seq<char>)>, pairs: Seq<(Seq<char>, Seq<char>)>) -> bool {
    forall|i: int| 0 <= i < pairs.len() && last_with_key(pairs, i) ==> holds_pair(m, #[trigger] pairs[i])
}

/// Whether the keys of `m` come in strictly increasing order.
pub open spec fn sorted_keys(m: Seq<(Seq<char>, Seq<char>)>) -> bool {
    forall|i: int, j: int| 0 <= i < j < m.len() ==> text_less(m[i].0, m[j].0)
}

proof fn lemma_insert_position(m: Seq<(Seq<char>, Seq<char>)>, k: Seq<char>)
    requires
        sorted_keys(m),
    ensures
        insert_position(m, k) <= m.len(),
        forall|e: int| 0 <= e < insert_position(m, k) ==> text_less(m[e].0, k),
        forall|e: int| insert_position(m, k) <= e < m.len() ==> !text_less(m[e].0, k),
    decreases m.len(),
{
    if m.len() > 0 {
        let t = m.drop_first();
        assert(sorted_keys(t)) by {
            assert forall|i: int, j: int| 0 <= i < j < t.len() implies text_less(t[i].0, t[j].0) by {
                assert(t[i] == m[i + 1] && t[j] == m[j + 1]);
            }
        }
        lemma_insert_position(t, k);
        let p = insert_position(m, k);
        assert forall|e: int| 0 <= e < p implies text_less(m[e].0, k) by {
            if e > 0 {
                assert(m[e] == t[e - 1]);
            }
        }
        assert forall|e: int| p <= e < m.len() implies !text_less(m[e].0, k) by {
            if text_less(m[0].0, k) {
                assert(m[e] == t[e - 1]);
            } else if e > 0 {
                lemma_text_less_order(m[0].0, m[e].0, k);
            }
        }
    }
}

proof fn lemma_sorted_distinct(m: Seq<(Seq<char>, Seq<char>)>)
    requires
        sorted_keys(m),
    ensures
        distinct_keys(m),
{
    assert forall|i: int, j: int| 0 <= i < j < m.len() implies m[i].0 != m[j].0 by {
        lemma_text_less_order(m[i].0, m[j].0, m[j].0);
    }
}

/// `m` keeps every entry of `mp` but the one at `at`, and holds `kv`; where `from(e)` says
/// where the entry of `m` at `e` comes from.
proof fn lemma_step_facts(
    mp: Seq<(Seq<char>, Seq<char>)>,
    m: Seq<(Seq<char>, Seq<char>)>,
    prev: Seq<(Seq<char>, Seq<char>)>,
    kv: (Seq<char>, Seq<char>),
    at: int,
    replaced: bool,
)
    requires
        0 <= at < m.len(),
        m[at] == kv,
        replaced ==> m.len() == mp.len() && at < mp.len() && mp[at].0 == kv.0,
        !replaced ==> m.len() == mp.len() + 1,
        forall|e: int| 0 <= e < m.len() && e != at ==> m[e] == mp[if replaced || e < at { e } else { e - 1 }],
        forall|e: int| 0 <= e < mp.len() && (!replaced || e != at) ==> m[if replaced || e < at { e } else { e + 1 }] == mp[e],
        entries_from(mp, prev),
        keys_covered(mp, prev),
        last_values_kept(mp, prev),
    ensures
        entries_from(m, prev.push(kv)),
        keys_covered(m, prev.push(kv)),
        last_values_kept(m, prev.push(kv)),
{
    let pairs = prev.push(kv);
    let n = prev.len() as int;
    assert(pairs[n] == kv);
    assert forall|e: int| 0 <= e < m.len() implies holds_pair(pairs, #[trigger] m[e]) by {
        if e == at {
            assert(pairs[n] == m[e]);
        } else {
            let se = if replaced || e < at { e } else { e - 1 };
            assert(m[e] == mp[se]);
            assert(holds_pair(prev, mp[se]));
            let i = choose|i: int| 0 <= i < prev.len() && prev[i] == mp[se];
            assert(pairs[i] == prev[i]);
        }
    }
    assert forall|i: int| 0 <= i < pairs.len() implies holds_key(m, #[trigger] pairs[i].0) by {
        if i == n {
            assert(m[at].0 == pairs[i].0);
        } else {
            assert(pairs[i] == prev[i]);
            assert(holds_key(mp, prev[i].0));
            let e = choose|e: int| 0 <= e < mp.len() && mp[e].0 == prev[i].0;
            if replaced && e == at {
                assert(m[at].0 == prev[i].0);
            } else {
                let te = if replaced || e < at { e } else { e + 1 };
                assert(m[te] == mp[e]);
            }
        }
    }
    assert forall|i: int| 0 <= i < pairs.len() && last_with_key(pairs, i) implies holds_pair(m, #[trigger] pairs[i]) by {
        if i == n {
            assert(m[at] == pairs[i]);
        } else {
            assert(pairs[i] == prev[i]);
            assert(pairs[n].0 != pairs[i].0);
            assert(last_with_key(prev, i)) by {
                assert forall|j: int| i < j < prev.len() implies prev[j].0 != prev[i].0 by {
                    assert(prev[j] == pairs[j]);
                }
            }
            assert(holds_pair(mp, prev[i]));
            let e = choose|e: int| 0 <= e < mp.len() && mp[e] == prev[i];
            assert(!(replaced && e == at));
            let te = if replaced || e < at { e } else { e + 1 };
            assert(m[te] == mp[e]);
        }
    }
}

proof fn lemma_insert_sorted(mp: Seq<(Seq<char>, Seq<char>)>, kv: (Seq<char>, Seq<char>), at: int)
    requires
        0 <= at <= mp.len(),
        forall|e: int| 0 <= e < at ==> text_less(mp[e].0, kv.0),
        forall|e: int| at <= e < mp.len() ==> !text_less(mp[e].0, kv.0),
        forall|e: int| 0 <= e < mp.len() ==> mp[e].0 != kv.0,
        sorted_keys(mp),
    ensures
        sorted_keys(mp.insert(at, kv)),
{
    let m = mp.insert(at, kv);
    mp.insert_ensures(at, kv);
    assert forall|i: int, j: int| 0 <= i < j < m.len() implies text_less(m[i].0, m[j].0) by {
        if j < at {
            assert(m[i] == mp[i] && m[j] == mp[j]);
        } else if j == at {
            assert(m[i] == mp[i]);
        } else if i > at {
            assert(m[i] == mp[i - 1] && m[j] == mp[j - 1]);
        } else if i == at {
            assert(m[j] == mp[j - 1]);
            lemma_text_less_order(mp[j - 1].0, kv.0, kv.0);
        } else {
            assert(m[i] == mp[i] && m[j] == mp[j - 1]);
        }
    }
}

proof fn lemma_update_sorted(mp: Seq<(Seq<char>, Seq<char>)>, kv: (Seq<char>, Seq<char>), at: int)
    requires
        0 <= at < mp.len(),
        mp[at].0 == kv.0,
        sorted_keys(mp),
    ensures
        sorted_keys(mp.update(at, kv)),
{
    let m = mp.update(at, kv);
    assert forall|i: int, j: int| 0 <= i < j < m.len() implies text_less(m[i].0, m[j].0) by {
        assert(m[i].0 == mp[i].0 && m[j].0 == mp[j].0);
    }
}

proof fn lemma_set_property_step(mp: Seq<(Seq<char>, Seq<char>)>, prev: Seq<(Seq<char>, Seq<char>)>, kv: (Seq<char>, Seq<char>))
    requires
        sorted_keys(mp),
        entries_from(mp, prev),
        keys_covered(mp, prev),
        last_values_kept(mp, prev),
    ensures
        sorted_keys(set_property(mp, kv)),
        entries_from(set_property(mp, kv), prev.push(kv)),
        keys_covered(set_property(mp, kv), prev.push(kv)),
        last_values_kept(set_property(mp, kv), prev.push(kv)),
{
    lemma_key_index_bound(mp, kv.0);
    lemma_key_index_none(mp, kv.0);
    lemma_sorted_distinct(mp);
    match key_index(mp, kv.0) {
        Some(x) => {
            let at = x as int;
            let m = mp.update(at, kv);
            lemma_update_sorted(mp, kv, at);
            lemma_step_facts(mp, m, prev, kv, at, true);
        },
        None => {
            lemma_insert_position(mp, kv.0);
            let at = insert_position(mp, kv.0) as int;
            let m = mp.insert(at, kv);
            mp.insert_ensures(at, kv);
            lemma_insert_sorted(mp, kv, at);
            lemma_step_facts(mp, m, prev, kv, at, false);
        },
    }
}

/// Setting properties one after the other keeps one entry per key, sorted by key, with the
/// last value given to it: the keys come in strictly increasing order (so no two entries
/// share one), each entry is a property that was set, every key that was set has an entry,
/// and the last property set for a key is its entry.
pub proof fn lemma_merged_last_wins(pairs: Seq<(Seq<char>, Seq<char>)>)
    ensures
        sorted_keys(merged(pairs)),
        distinct_keys(merged(pairs)),
        entries_from(merged(pairs), pairs),
        keys_covered(merged(pairs), pairs),
        last_values_kept(merged(pairs), pairs),
    decreases pairs.len(),
{
    if pairs.len() > 0 {
        lemma_merged_last_wins(pairs.drop_last());
        lemma_set_property_step(merged(pairs.drop_last()), pairs.drop_last(), pairs.last());
        assert(pairs.drop_last().push(pairs.last()) =~= pairs);
    }
    lemma_sorted_distinct(merged(pairs));
}

/// A key set twice in a property list keeps its last value: the entries of a property list
/// come sorted by key with distinct keys, each is a property written in the list, every key
/// written has an entry, and the last property written for a key is its entry.
pub proof fn lemma_properties_last_wins(text: Seq<char>)
    ensures
        sorted_keys(property_entries(text)),
        distinct_keys(property_entries(text)),
        entries_from(property_entries(text), property_pairs(property_pieces(text))),
        keys_covered(property_entries(text), property_pairs(property_pieces(text))),
        last_values_kept(property_entries(text), property_pairs(property_pieces(text))),
{
    lemma_merged_last_wins(property_pairs(property_pieces(text)));
}

proof fn lemma_pieces_of_one(s: Seq<char>)
    requires
        forall|i: int| 0 <= i < s.len() ==> s[i] != ';' && s[i] != '\n',
    ensures
        property_pieces(s) == seq![s],
    decreases s.len(),
{
    if s.len() > 0 {
        let d = s.drop_last();
        assert forall|i: int| 0 <= i < d.len() implies d[i] != ';' && d[i] != '\n' by {
            assert(d[i] == s[i]);
        }
        lemma_pieces_of_one(d);
        assert(s.last() == s[s.len() - 1]);
        assert(!is_property_end(s.last()));
        assert(d.push(s.last()) =~= s);
        assert(seq![d].last() == d);
        assert(seq![d].update(0, s) =~= seq![s]);
    } else {
        assert(s =~= Seq::<char>::empty());
    }
}

/// Only `;` and line breaks separate properties: a text with neither holds at most one
/// property, whose key is the trimmed text before the first `=` and whose value is the trimmed
/// text after it (empty without `=`), so that a value keeps its commas, spaces inside and
/// further `=`. Such a text holds none when it is blank or starts with `#` once trimmed.
pub proof fn lemma_one_property(text: Seq<char>)
    requires
        forall|i: int| 0 <= i < text.len() ==> text[i] != ';' && text[i] != '\n',
    ensures
        property_entries(text) == if trim(text).len() == 0 || trim(text)[0] == '#' {
            Seq::<(Seq<char>, Seq<char>)>::empty()
        } else {
            seq![
                (
                    trim(before_first(text, '=')),
                    match after_first(text, '=') {
                        Some(v) => trim(v),
                        None => Seq::<char>::empty(),
                    },
                ),
            ]
        },
{
    lemma_pieces_of_one(text);
    let pieces = seq![text];
    assert(pieces.drop_last() =~= Seq::<Seq<char>>::empty());
    assert(pieces.last() == text);
    let pairs = property_pairs(pieces);
    let none = Seq::<(Seq<char>, Seq<char>)>::empty();
    assert(property_pairs(pieces.drop_last()) == none);
    assert(pairs == if is_skipped(text) { none } else { none.push(property_pair(text)) });
    if !is_skipped(text) {
        let kv = property_pair(text);
        assert(pairs =~= seq![kv]);
        assert(pairs.drop_last() =~= Seq::<(Seq<char>, Seq<char>)>::empty());
        assert(merged(Seq::<(Seq<char>, Seq<char>)>::empty()) =~= Seq::<(Seq<char>, Seq<char>)>::empty());
        assert(key_index(Seq::<(Seq<char>, Seq<char>)>::empty(), kv.0) is None);
        assert(insert_position(Seq::<(Seq<char>, Seq<char>)>::empty(), kv.0) == 0);
        assert(Seq::<(Seq<char>, Seq<char>)>::empty().insert(0, kv) =~= seq![kv]);
    } else {
        assert(pairs =~= Seq::<(Seq<char>, Seq<char>)>::empty());
    }
}

/// `s` with each line break written as `;`.
pub open spec fn breaks_as_semicolons(s: Seq<char>) -> Seq<char> {
    s.map_values(|c: char| if c == '\n' { ';' } else { c })
}

proof fn lemma_pieces_breaks_as_semicolons(s: Seq<char>)
    ensures
        property_pieces(breaks_as_semicolons(s)) == property_pieces(s),
    decreases s.len(),
{
    if s.len() > 0 {
        let t = breaks_as_semicolons(s);
        assert(t.drop_last() =~= breaks_as_semicolons(s.drop_last()));
        assert(t.last() == if s.last() == '\n' { ';' } else { s.last() });
        lemma_pieces_breaks_as_semicolons(s.drop_last());
    }
}

/// A line break separates properties as `;` does: writing each line break of a property
/// list as `;` leaves its entries unchanged.
pub proof fn lemma_line_breaks_separate_properties(text: Seq<char>)
    ensures
        property_entries(breaks_as_semicolons(text)) == property_entries(text),
{
    lemma_pieces_breaks_as_semicolons(text);
}

/// Sets the property `(k, val)` in `m`.
fn set_entry(m: &mut Vec<(String, String)>, k: String, val: String)
    ensures
        pairs_view(final(m)@) == set_property(pairs_view(old(m)@), (k@, val@)),
{
    let ghost old_view = pairs_view(m@);
    match find_key(m, &k) {
        Some(i) => {
            proof {
                lemma_key_index_bound(old_view, k@);
            }
            m.set(i, (k, val));
            assert(pairs_view(m@) =~= old_view.update(i as int, (k@, val@)));
        },
        None => {
            let mut p: usize = 0;
            while p < m.len() && less_text(m[p].0.as_str(), k.as_str())
                invariant
                    p <= m.len(),
                    old_view == pairs_view(m@),
                    forall|j: int| 0 <= j < p ==> text_less(old_view[j].0, k@),
                decreases m.len() - p,
            {
                p = p + 1;
            }
            proof {
                lemma_insert_position_at(old_view, k@, p as int);
            }
            m.insert(p, (k, val));
            assert(pairs_view(m@) =~= old_view.insert(p as int, (k@, val@)));
        },
    }
}

proof fn lemma_insert_position_at(m: Seq<(Seq<char>, Seq<char>)>, k: Seq<char>, p: int)
    requires
        0 <= p <= m.len(),
        forall|j: int| 0 <= j < p ==> text_less(m[j].0, k),
        p == m.len() || !text_less(m[p].0, k),
    ensures
        insert_position(m, k) == p,
    decreases m.len(),
{
    if m.len() > 0 && text_less(m[0].0, k) {
        assert forall|j: int| 0 <= j < p - 1 implies text_less(m.drop_first()[j].0, k) by {
            assert(m.drop_first()[j] == m[j + 1]);
        }
        if p - 1 < m.len() - 1 {
            assert(m.drop_first()[p - 1] == m[p]);
        }
        lemma_insert_position_at(m.drop_first(), k, p - 1);
    }
}

proof fn lemma_key_index_bound(m: Seq<(Seq<char>, Seq<char>)>, k: Seq<char>)
    ensures
        key_index(m, k) matches Some(i) ==> i < m.len() && m[i as int].0 == k,
    decreases m.len(),
{
    if m.len() > 0 && m[0].0 != k {
        lemma_key_index_bound(m.drop_first(), k);
    }
}

/// The trimmed text of `v[from..to]`.
fn trimmed_string(v: &Vec<char>, from: usize, to: usize) -> (r: String)
    requires
        from <= to <= v.len(),
    ensures
        r@ == trim(v@.subrange(from as int, to as int)),
{
    let (a, b) = trimmed(v, from, to);
    string_of(v, a, b)
}

/// The property written in `v[from..to]`.
fn pair_of(v: &Vec<char>, from: usize, to: usize) -> (r: (String, String))
    requires
        from <= to <= v.len(),
    ensures
        (r.0@, r.1@) == property_pair(v@.subrange(from as int, to as int)),
{
    let ghost piece = v@.subrange(from as int, to as int);
    let mut i = from;
    while i < to && v[i] != '='
        invariant
            from <= i <= to <= v.len(),
            piece == v@.subrange(from as int, to as int),
            forall|j: int| from <= j < i ==> v@[j] != '=',
        decreases to - i,
    {
        i = i + 1;
    }
    proof {
        assert forall|j: int| 0 <= j < i - from implies piece[j] != '=' by {
            assert(piece[j] == v@[from + j]);
        }
        if i < to {
            assert(piece[i - from] == v@[i as int]);
        }
        lemma_count_before(piece, '=', i - from);
        lemma_count_before_bounds(piece, '=');
    }
    let key = trimmed_string(v, from, i);
    assert(piece.take((i - from) as int) =~= v@.subrange(from as int, i as int));
    if i < to {
        let value = trimmed_string(v, i + 1, to);
        assert(piece.skip((i - from) + 1) =~= v@.subrange(i + 1, to as int));
        (key, value)
    } else {
        (key, String::new())
    }
}

/// Sets in `m` the property written in `v[from..to]`, unless that piece is blank or a comment.
fn read_piece(m: &mut Vec<(String, String)>, v: &Vec<char>, from: usize, to: usize)
    requires
        from <= to <= v.len(),
    ensures
        pairs_view(final(m)@) == if is_skipped(v@.subrange(from as int, to as int)) {
            pairs_view(old(m)@)
        } else {
            set_property(pairs_view(old(m)@), property_pair(v@.subrange(from as int, to as int)))
        },
{
    let (a, b) = trimmed(v, from, to);
    proof {
        let t = v@.subrange(a as int, b as int);
        if a < b {
            assert(t[0] == v@[a as int]);
        }
    }
    if a < b && v[a] != '#' {
        let (k, val) = pair_of(v, from, to);
        set_entry(m, k, val);
    }
}

/// Reads a property list into its entries: one per key, sorted by key, each with the last
/// value given to it.
pub fn parse_properties(text: &str) -> (m: Vec<(String, String)>)
    ensures
        pairs_view(m@) == property_entries(text@),
{
    let v = chars_of(text);
    let mut m: Vec<(String, String)> = Vec::new();
    let mut start: usize = 0;
    let mut i: usize = 0;
    let ghost mut done: Seq<Seq<char>> = Seq::empty();
    assert(v@.take(0) =~= Seq::<char>::empty());
    assert(property_pieces(v@.take(0)) =~= done.push(v@.subrange(0, 0)));
    while i < v.len()
        invariant
            v@ == text@,
            start <= i <= v.len(),
            property_pieces(v@.take(i as int)) == done.push(v@.subrange(start as int, i as int)),
            pairs_view(m@) == merged(property_pairs(done)),
        decreases v.len() - i,
    {
        let ghost prev = v@.take(i as int);
        assert(v@.take(i + 1).drop_last() =~= prev);
        assert(v@.take(i + 1).last() == v@[i as int]);
        if v[i] == ';' || v[i] == '\n' {
            let ghost piece = v@.subrange(start as int, i as int);
            read_piece(&mut m, &v, start, i);
            proof {
                let nd = done.push(piece);
                assert(nd.drop_last() =~= done);
                if !is_skipped(piece) {
                    let pp = property_pairs(done).push(property_pair(piece));
                    assert(pp.drop_last() =~= property_pairs(done));
                }
                done = nd;
                assert(v@.subrange(i + 1, i + 1) =~= Seq::<char>::empty());
            }
            start = i + 1;
        } else {
            proof {
                assert(v@.subrange(start as int, i + 1) =~= v@.subrange(start as int, i as int).push(v@[i as int]));
                let pieces = done.push(v@.subrange(start as int, i as int));
                assert(pieces.update(pieces.len() - 1, pieces.last().push(v@[i as int])) =~= done.push(v@.subrange(start as int, i + 1)));
            }
        }
        i = i + 1;
    }
    let ghost piece = v@.subrange(start as int, i as int);
    read_piece(&mut m, &v, start, i);
    proof {
        let nd = done.push(piece);
        assert(nd.drop_last() =~= done);
        if !is_skipped(piece) {
            let pp = property_pairs(done).push(property_pair(piece));
            assert(pp.drop_last() =~= property_pairs(done));
        }
        assert(v@.take(i as int) =~= text@);
    }
    m
}

/// Renders a property list as a JSON object: one member per key, sorted by key as a JSON
/// object map orders its keys, with the last value given to each.
pub fn properties_to_json(text: &str) -> (t: String)
    ensures
        t@ == properties_json(text@),
{
    let entries = parse_properties(text);
    proof {
        lemma_properties_last_wins(text@);
    }
    json_object(&entries)
}

} // verus!

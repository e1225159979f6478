//! Processing settings as the assistant sees them: the fields it may change
//! and the bounds on their values, and the changed fields between two
//! settings values, one line per leaf, as receipts list them (object members
//! in key order, arrays that hold objects by index, every other changed value
//! as one "label: old → new unit" line).
use vstd::prelude::*;
use vstd::string::StrSliceExecFns;
use crate::json::{Json, JsonView, equal, get, lookup};
use crate::text::{
    decimal, decimal_text, find, find_from, lemma_find_from, matches_at, occurs_at, str_eq, views,
};
use crate::json_text::{json_text, to_text};

verus! {

/// String order as `String`'s `Ord` has it: lexicographic by character
/// (UTF-8 byte order and code point order agree), a proper prefix first.
pub open spec fn str_lt(a: Seq<char>, b: Seq<char>) -> bool
    decreases a.len(),
{
    if a.len() == 0 {
        b.len() > 0
    } else if b.len() == 0 {
        false
    } else if a[0] != b[0] {
        (a[0] as int) < (b[0] as int)
    } else {
        str_lt(a.drop_first(), b.drop_first())
    }
}

/// No string comes before itself.
pub proof fn lemma_str_lt_irreflexive(a: Seq<char>)
    ensures
        !str_lt(a, a),
    decreases a.len(),
{
    if a.len() > 0 {
        lemma_str_lt_irreflexive(a.drop_first());
    }
}

/// The order is transitive.
pub proof fn lemma_str_lt_transitive(a: Seq<char>, b: Seq<char>, c: Seq<char>)
    requires
        str_lt(a, b),
        str_lt(b, c),
    ensures
        str_lt(a, c),
    decreases a.len(),
{
    if a.len() > 0 && b.len() > 0 && c.len() > 0 && a[0] == b[0] && b[0] == c[0] {
        lemma_str_lt_transitive(a.drop_first(), b.drop_first(), c.drop_first());
    }
}

/// Of two different strings, one comes first.
pub proof fn lemma_str_lt_total(a: Seq<char>, b: Seq<char>)
    requires
        a != b,
    ensures
        str_lt(a, b) || str_lt(b, a),
    decreases a.len(),
{
    if a.len() > 0 && b.len() > 0 {
        if a[0] == b[0] {
            if a.drop_first() == b.drop_first() {
                assert(a =~= seq![a[0]] + a.drop_first());
                assert(b =~= seq![b[0]] + b.drop_first());
            }
            lemma_str_lt_total(a.drop_first(), b.drop_first());
        } else {
            assert((a[0] as int) != (b[0] as int));
        }
    } else if a.len() == 0 && b.len() == 0 {
        assert(a =~= b);
    }
}

/// `str_lt` on strings, by walking both.
pub fn str_less(a: &str, b: &str) -> (r: bool)
    ensures
        r == str_lt(a@, b@),
{
    let n = a.unicode_len();
    let m = b.unicode_len();
    let mut i: usize = 0;
    assert(a@.skip(0) =~= a@ && b@.skip(0) =~= b@);
    while i < n && i < m
        invariant
            n == a@.len(),
            m == b@.len(),
            i <= n,
            i <= m,
            str_lt(a@, b@) == str_lt(a@.skip(i as int), b@.skip(i as int)),
        decreases n - i,
    {
        let x = a.get_char(i);
        let y = b.get_char(i);
        if x != y {
            return x < y;
        }
        assert(a@.skip(i as int).drop_first() =~= a@.skip(i + 1));
        assert(b@.skip(i as int).drop_first() =~= b@.skip(i + 1));
        i = i + 1;
    }
    i == n && i < m
}

/// Every key strictly after the one before it.
pub open spec fn ascending(ks: Seq<Seq<char>>) -> bool {
    forall|i: int, j: int| 0 <= i < j < ks.len() ==> str_lt(#[trigger] ks[i], #[trigger] ks[j])
}

/// The keys of the first `n` members.
pub open spec fn keys_upto(members: Seq<(Seq<char>, JsonView)>, n: int) -> Set<Seq<char>> {
    Set::new(|k: Seq<char>| exists|i: int| 0 <= i < n && #[trigger] members[i].0 == k)
}

/// The keys of an object's members.
pub open spec fn keys_of(members: Seq<(Seq<char>, JsonView)>) -> Set<Seq<char>> {
    keys_upto(members, members.len() as int)
}

proof fn lemma_keys_upto_next(members: Seq<(Seq<char>, JsonView)>, n: int)
    requires
        0 <= n < members.len(),
    ensures
        keys_upto(members, n + 1) == keys_upto(members, n).insert(members[n].0),
{
    assert forall|k: Seq<char>| keys_upto(members, n + 1).contains(k) implies keys_upto(
        members,
        n,
    ).insert(members[n].0).contains(k) by {
        let i = choose|i: int| 0 <= i < n + 1 && #[trigger] members[i].0 == k;
        if i < n {
            assert(keys_upto(members, n).contains(k));
        }
    }
    assert forall|k: Seq<char>| keys_upto(members, n).insert(members[n].0).contains(k) implies keys_upto(
        members,
        n + 1,
    ).contains(k) by {
        if k == members[n].0 {
            assert(members[n].0 == k);
        } else {
            let i = choose|i: int| 0 <= i < n && #[trigger] members[i].0 == k;
            assert(members[i].0 == k);
        }
    }
    assert(keys_upto(members, n + 1) =~= keys_upto(members, n).insert(members[n].0));
}

/// The keys of both objects, each once, in ascending order.
pub open spec fn union_keys(
    before: Seq<(Seq<char>, JsonView)>,
    after: Seq<(Seq<char>, JsonView)>,
) -> Seq<Seq<char>> {
    choose|ks: Seq<Seq<char>>| ascending(ks) && ks.to_set() == keys_of(before) + keys_of(after)
}

/// Two ascending sequences with the same elements are the same sequence.
pub proof fn lemma_ascending_unique(x: Seq<Seq<char>>, y: Seq<Seq<char>>)
    requires
        ascending(x),
        ascending(y),
        x.to_set() == y.to_set(),
    ensures
        x == y,
    decreases x.len(),
{
    if x.len() == 0 {
        if y.len() > 0 {
            assert(y.to_set().contains(y[0]));
        }
        assert(x =~= y);
    } else {
        assert(x.to_set().contains(x[0]));
        assert(y.to_set().contains(x[0]));
        let j = choose|j: int| 0 <= j < y.len() && y[j] == x[0];
        assert(y.to_set().contains(y[0]));
        assert(x.to_set().contains(y[0]));
        let i = choose|i: int| 0 <= i < x.len() && x[i] == y[0];
        if j > 0 {
            assert(str_lt(y[0], y[j]));
            if i > 0 {
                assert(str_lt(x[0], x[i]));
                lemma_str_lt_transitive(x[0], x[i], x[0]);
            }
            lemma_str_lt_irreflexive(x[0]);
        }
        assert(x[0] == y[0]);
        let x1 = x.drop_first();
        let y1 = y.drop_first();
        assert forall|k: Seq<char>| x1.to_set().contains(k) implies y1.to_set().contains(k) by {
            let a = choose|a: int| 0 <= a < x1.len() && x1[a] == k;
            assert(x.to_set().contains(x[a + 1]));
            let b = choose|b: int| 0 <= b < y.len() && y[b] == k;
            if b == 0 {
                assert(str_lt(x[0], x[a + 1]));
                lemma_str_lt_irreflexive(x[0]);
            }
            assert(y1[b - 1] == k);
        }
        assert forall|k: Seq<char>| y1.to_set().contains(k) implies x1.to_set().contains(k) by {
            let b = choose|b: int| 0 <= b < y1.len() && y1[b] == k;
            assert(y.to_set().contains(y[b + 1]));
            let a = choose|a: int| 0 <= a < x.len() && x[a] == k;
            if a == 0 {
                assert(str_lt(y[0], y[b + 1]));
                lemma_str_lt_irreflexive(y[0]);
            }
            assert(x1[a - 1] == k);
        }
        assert(x1.to_set() =~= y1.to_set());
        lemma_ascending_unique(x1, y1);
        assert(x =~= seq![x[0]] + x1);
        assert(y =~= seq![y[0]] + y1);
    }
}

/// Put `k` into the ascending `keys`, unless it is there already.
fn insert_key(keys: &mut Vec<String>, k: &str)
    requires
        ascending(views(old(keys)@)),
    ensures
        ascending(views(final(keys)@)),
        views(final(keys)@).to_set() == views(old(keys)@).to_set().insert(k@),
{
    let ghost old_keys = views(keys@);
    let n = keys.len();
    let mut i: usize = 0;
    while i < n && str_less(keys[i].as_str(), k)
        invariant
            n == keys@.len(),
            old_keys == views(keys@),
            i <= n,
            forall|a: int| 0 <= a < i ==> str_lt(#[trigger] old_keys[a], k@),
        decreases n - i,
    {
        i = i + 1;
    }
    if i < n && str_eq(keys[i].as_str(), k) {
        assert(old_keys.to_set() =~= old_keys.to_set().insert(k@)) by {
            assert(old_keys[i as int] == k@);
        }
        return;
    }
    proof {
        if i < n {
            assert(!str_lt(old_keys[i as int], k@));
            lemma_str_lt_total(old_keys[i as int], k@);
            assert forall|b: int| i <= b < n implies str_lt(k@, #[trigger] old_keys[b]) by {
                if b > i {
                    lemma_str_lt_transitive(k@, old_keys[i as int], old_keys[b]);
                }
            }
        }
    }
    keys.insert(i, String::from_str(k));
    let ghost new_keys = views(keys@);
    assert(new_keys =~= old_keys.insert(i as int, k@));
    assert forall|a: int, b: int| 0 <= a < b < new_keys.len() implies str_lt(
        #[trigger] new_keys[a],
        #[trigger] new_keys[b],
    ) by {
        if b < i {
        } else if b == i {
        } else if a < i {
            lemma_str_lt_transitive(new_keys[a], k@, new_keys[b]);
        } else if a == i {
        } else {
        }
    }
    assert forall|x: Seq<char>| new_keys.to_set().contains(x) <==> old_keys.to_set().insert(
        k@,
    ).contains(x) by {
        if new_keys.to_set().contains(x) {
            let a = choose|a: int| 0 <= a < new_keys.len() && new_keys[a] == x;
            if a < i {
                assert(old_keys[a] == x);
            } else if a > i {
                assert(old_keys[a - 1] == x);
            }
        }
        if old_keys.to_set().contains(x) {
            let a = choose|a: int| 0 <= a < old_keys.len() && old_keys[a] == x;
            if a < i {
                assert(new_keys[a] == x);
            } else {
                assert(new_keys[a + 1] == x);
            }
        }
        if x == k@ {
            assert(new_keys[i as int] == x);
        }
    }
    assert(new_keys.to_set() =~= old_keys.to_set().insert(k@));
}

/// Nesting weight of a value: one for each array or object in it.
pub open spec fn size(j: JsonView) -> nat
    decreases j,
{
    match j {
        JsonView::Array(items) => 1 + item_sizes(items),
        JsonView::Object(members) => 1 + member_sizes(members),
        _ => 0,
    }
}

/// Sum of the sizes of `items`.
pub open spec fn item_sizes(items: Seq<JsonView>) -> nat
    decreases items,
{
    if items.len() == 0 {
        0
    } else {
        size(items[0]) + item_sizes(items.drop_first())
    }
}

/// Sum of the sizes of the member values.
pub open spec fn member_sizes(members: Seq<(Seq<char>, JsonView)>) -> nat
    decreases members,
{
    if members.len() == 0 {
        0
    } else {
        size(members[0].1) + member_sizes(members.drop_first())
    }
}

/// A member value weighs no more than all member values together.
pub proof fn lemma_lookup_size(members: Seq<(Seq<char>, JsonView)>, key: Seq<char>)
    ensures
        size(value_at(members, key)) <= member_sizes(members),
    decreases members.len(),
{
    if members.len() > 0 && members[0].0 != key {
        lemma_lookup_size(members.drop_first(), key);
    }
}

/// An item weighs no more than all items together.
pub proof fn lemma_item_size(items: Seq<JsonView>, i: int)
    ensures
        size(item_at(items, i)) <= item_sizes(items),
    decreases items.len(),
{
    if 0 < i < items.len() {
        lemma_item_size(items.drop_first(), i - 1);
        assert(items.drop_first()[i - 1] == items[i]);
    }
}

/// The member `key` of an object with these members, or null (as indexing
/// a `serde_json::Value` by a missing key gives).
pub open spec fn value_at(members: Seq<(Seq<char>, JsonView)>, key: Seq<char>) -> JsonView {
    match lookup(members, key) {
        Some(v) => v,
        None => JsonView::Null,
    }
}

/// Item `i` of an array, or null past its end.
pub open spec fn item_at(items: Seq<JsonView>, i: int) -> JsonView {
    if 0 <= i < items.len() {
        items[i]
    } else {
        JsonView::Null
    }
}

/// Some item is an object.
pub open spec fn holds_object(items: Seq<JsonView>) -> bool {
    exists|i: int| 0 <= i < items.len() && #[trigger] items[i] is Object
}

/// The path of member `key` below `name`.
pub open spec fn member_name(name: Seq<char>, key: Seq<char>) -> Seq<char> {
    if name.len() == 0 {
        key
    } else {
        name + "."@ + key
    }
}

/// The path of item `i` below `name`.
pub open spec fn item_name(name: Seq<char>, i: nat) -> Seq<char> {
    name + "["@ + decimal(i) + "]"@
}

/// The part of a path after its last dot (all of it when it has none).
pub open spec fn last_segment(name: Seq<char>) -> Seq<char>
    decreases name.len(),
{
    if name.len() == 0 {
        name
    } else if name.last() == '.' {
        seq![]
    } else {
        last_segment(name.drop_last()).push(name.last())
    }
}

/// `s` without the closing brackets at its end.
pub open spec fn trim_closing(s: Seq<char>) -> Seq<char>
    decreases s.len(),
{
    if s.len() > 0 && s.last() == ')' {
        trim_closing(s.drop_last())
    } else {
        s
    }
}

/// One entry of the settings catalog: a field key, its label, which may
/// end in its unit as " (unit)", and the section of the settings it is in.
pub struct Setting {
    pub key: String,
    pub label: String,
    pub section: String,
}

/// The label of the first catalog entry for `key`.
pub open spec fn label_of(catalog: Seq<Setting>, key: Seq<char>) -> Option<Seq<char>>
    decreases catalog.len(),
{
    if catalog.len() == 0 {
        None
    } else if catalog[0].key@ == key {
        Some(catalog[0].label@)
    } else {
        label_of(catalog.drop_first(), key)
    }
}

/// How a value reads in a line: null as "Auto", a string as its text, any
/// other value as its JSON text.
pub open spec fn shown(v: JsonView) -> Seq<char> {
    match v {
        JsonView::Null => "Auto"@,
        JsonView::Str(s) => s,
        _ => json_text(v),
    }
}

/// The catalog label of the key, or the key itself.
pub open spec fn full_label(catalog: Seq<Setting>, key: Seq<char>) -> Seq<char> {
    match label_of(catalog, key) {
        Some(l) => l,
        None => key,
    }
}

/// The label without its " (unit)" part.
pub open spec fn bare_label(label: Seq<char>) -> Seq<char> {
    match find_from(label, " ("@, 0) {
        Some(i) => label.take(i),
        None => label,
    }
}

/// The unit of a field: fixed for the k and R range ends, else what the
/// label's " (unit)" part names, else none.
pub open spec fn unit_of(label: Seq<char>, key: Seq<char>) -> Seq<char> {
    if key == "kmin"@ || key == "kmax"@ {
        "Å⁻¹"@
    } else if key == "rmin"@ || key == "rmax"@ {
        "Å"@
    } else {
        match find_from(label, " ("@, 0) {
            Some(i) => trim_closing(label.skip(i + 2)),
            None => seq![],
        }
    }
}

/// The line for a changed leaf at path `name`.
pub open spec fn leaf_line(
    name: Seq<char>,
    before: JsonView,
    after: JsonView,
    catalog: Seq<Setting>,
) -> Seq<char> {
    let key = last_segment(name);
    let label = full_label(catalog, key);
    let unit = unit_of(label, key);
    name.take(name.len() - key.len()) + bare_label(label) + ": "@ + shown(before) + " → "@ + shown(
        after,
    ) + if unit.len() == 0 {
        seq![]
    } else {
        " "@ + unit
    }
}

/// The lines for the change from `before` to `after` at path `name`.
pub open spec fn diff_lines(
    name: Seq<char>,
    before: JsonView,
    after: JsonView,
    catalog: Seq<Setting>,
) -> Seq<Seq<char>>
    decreases size(before) + size(after), 1nat, 0nat,
{
    if before == after {
        seq![]
    } else {
        match before {
            JsonView::Object(bm) => match after {
                JsonView::Object(am) => diff_members(name, union_keys(bm, am), bm, am, catalog),
                _ => seq![leaf_line(name, before, after, catalog)],
            },
            JsonView::Array(bi) => match after {
                JsonView::Array(ai) => if holds_object(bi) || holds_object(ai) {
                    diff_items(
                        name,
                        if bi.len() >= ai.len() {
                            bi.len()
                        } else {
                            ai.len()
                        },
                        bi,
                        ai,
                        catalog,
                    )
                } else {
                    seq![leaf_line(name, before, after, catalog)]
                },
                _ => seq![leaf_line(name, before, after, catalog)],
            },
            _ => seq![leaf_line(name, before, after, catalog)],
        }
    }
}

/// The lines for members `keys` of two objects, in the order of `keys`.
pub open spec fn diff_members(
    name: Seq<char>,
    keys: Seq<Seq<char>>,
    bm: Seq<(Seq<char>, JsonView)>,
    am: Seq<(Seq<char>, JsonView)>,
    catalog: Seq<Setting>,
) -> Seq<Seq<char>>
    decreases size(JsonView::Object(bm)) + size(JsonView::Object(am)), 0nat, keys.len(),
{
    if keys.len() == 0 {
        seq![]
    } else {
        let k = keys.last();
        proof {
            lemma_lookup_size(bm, k);
            lemma_lookup_size(am, k);
        }
        diff_members(name, keys.drop_last(), bm, am, catalog) + diff_lines(
            member_name(name, k),
            value_at(bm, k),
            value_at(am, k),
            catalog,
        )
    }
}

/// The lines for the first `n` items of two arrays, by index.
pub open spec fn diff_items(
    name: Seq<char>,
    n: nat,
    bi: Seq<JsonView>,
    ai: Seq<JsonView>,
    catalog: Seq<Setting>,
) -> Seq<Seq<char>>
    decreases size(JsonView::Array(bi)) + size(JsonView::Array(ai)), 0nat, n,
{
    if n == 0 {
        seq![]
    } else {
        proof {
            lemma_item_size(bi, n - 1);
            lemma_item_size(ai, n - 1);
        }
        diff_items(name, (n - 1) as nat, bi, ai, catalog) + diff_lines(
            item_name(name, (n - 1) as nat),
            item_at(bi, n - 1),
            item_at(ai, n - 1),
            catalog,
        )
    }
}

/// A value compared with itself has no changed fields, at any path.
pub proof fn law_unchanged_value_has_no_lines(name: Seq<char>, v: JsonView, catalog: Seq<Setting>)
    ensures
        diff_lines(name, v, v, catalog) == Seq::<Seq<char>>::empty(),
{
}

/// A change between two leaves (values that are neither both objects nor
/// both arrays) is exactly one line.
pub proof fn law_changed_leaf_is_one_line(
    name: Seq<char>,
    before: JsonView,
    after: JsonView,
    catalog: Seq<Setting>,
)
    requires
        before != after,
        !(before is Object && after is Object),
        !(before is Array && after is Array),
    ensures
        diff_lines(name, before, after, catalog) == seq![leaf_line(name, before, after, catalog)],
{
}

/// `pat` occurs somewhere in `s`.
pub open spec fn has_part(s: Seq<char>, pat: Seq<char>) -> bool {
    exists|i: int| #[trigger] occurs_at(s, pat, i)
}

/// `s` ends with `pat`.
pub open spec fn has_suffix(s: Seq<char>, pat: Seq<char>) -> bool {
    s.len() >= pat.len() && s.skip(s.len() - pat.len()) == pat
}

/// `s` starts with `pat`.
pub open spec fn has_prefix(s: Seq<char>, pat: Seq<char>) -> bool {
    s.len() >= pat.len() && s.take(pat.len() as int) == pat
}

fn contains_part(s: &str, pat: &str) -> (r: bool)
    ensures
        r == has_part(s@, pat@),
{
    let found = find(s, pat, 0);
    proof {
        lemma_find_from(s@, pat@, 0);
        match find_from(s@, pat@, 0) {
            Some(j) => {
                assert(occurs_at(s@, pat@, j));
            },
            None => {
                assert forall|i: int| !occurs_at(s@, pat@, i) by {
                    if i >= 0 {
                    }
                }
            },
        }
    }
    found.is_some()
}

fn ends_with(s: &str, pat: &str) -> (r: bool)
    ensures
        r == has_suffix(s@, pat@),
{
    let n = s.unicode_len();
    let m = pat.unicode_len();
    if m > n {
        return false;
    }
    let r = matches_at(s, pat, n - m);
    assert(r == (s@.subrange((n - m) as int, n as int) == pat@));
    assert(s@.skip((n - m) as int) =~= s@.subrange((n - m) as int, n as int));
    r
}

fn starts_with(s: &str, pat: &str) -> (r: bool)
    ensures
        r == has_prefix(s@, pat@),
{
    let r = matches_at(s, pat, 0);
    assert(r == (pat@.len() <= s@.len() && s@.subrange(0, pat@.len() as int) == pat@));
    r
}

/// How a numeric change of a field is bounded.
#[derive(Clone, Copy, Debug, PartialEq, Eq, Structural)]
pub enum NumberRule {
    /// Any finite value.
    Any,
    /// Greater than zero: steps, FFT sizes and the background cutoff.
    Positive,
    /// Zero or more: k weights, k limits, back-transform settings, the
    /// forward transform's R maximum and window widths.
    Nonnegative,
}

/// The bound on numeric values of field `key`.
pub open spec fn number_rule_of(key: Seq<char>) -> NumberRule {
    if has_suffix(key, "step"@) || has_suffix(key, "nfft"@) || key == "rbkg"@ {
        NumberRule::Positive
    } else if has_part(key, "kweight"@) || has_part(key, "kmin"@) || has_part(key, "kmax"@)
        || has_prefix(key, "bft_"@) || key == "fft_rmax"@ || has_part(key, "dk"@) {
        NumberRule::Nonnegative
    } else {
        NumberRule::Any
    }
}

/// The bound on numeric values of field `key`.
pub fn number_rule(key: &str) -> (r: NumberRule)
    ensures
        r == number_rule_of(key@),
{
    if ends_with(key, "step") || ends_with(key, "nfft") || str_eq(key, "rbkg") {
        NumberRule::Positive
    } else if contains_part(key, "kweight") || contains_part(key, "kmin") || contains_part(key, "kmax")
        || starts_with(key, "bft_") || str_eq(key, "fft_rmax") || contains_part(key, "dk") {
        NumberRule::Nonnegative
    } else {
        NumberRule::Any
    }
}

/// The assistant may change field `key`: the catalog lists it outside the
/// Import section.
pub open spec fn assistant_may_set(catalog: Seq<Setting>, key: Seq<char>) -> bool {
    exists|i: int| 0 <= i < catalog.len() && (#[trigger] catalog[i]).key@ == key && catalog[i].section@ != "Import"@
}

/// Check a proposed processing field: refused unless the catalog lists it
/// outside the Import section, else the bound its numeric values must meet.
pub fn check_field(key: &str, catalog: &Vec<Setting>) -> (r: Result<NumberRule, String>)
    ensures
        match r {
            Ok(rule) => assistant_may_set(catalog@, key@) && rule == number_rule_of(key@),
            Err(e) => !assistant_may_set(catalog@, key@) && e@ == "Unsupported processing field: "@ + key@,
        },
{
    let n = catalog.len();
    let mut i: usize = 0;
    while i < n
        invariant
            n == catalog@.len(),
            i <= n,
            forall|k: int| 0 <= k < i ==> !((#[trigger] catalog@[k]).key@ == key@ && catalog@[k].section@ != "Import"@),
        decreases n - i,
    {
        if str_eq(catalog[i].key.as_str(), key) && !str_eq(catalog[i].section.as_str(), "Import") {
            assert(catalog@[i as int].key@ == key@);
            return Ok(number_rule(key));
        }
        i = i + 1;
    }
    Err(String::from_str("Unsupported processing field: ").concat(key))
}

/// The fields of a proposed change: it must be an object with at least one.
pub fn change_fields(patch: &Json) -> (r: Result<&Vec<(String, Json)>, &'static str>)
    ensures
        match r {
            Ok(fields) => patch@ == JsonView::Object(
                Seq::new(fields@.len(), |i: int| (fields@[i].0@, fields@[i].1@)),
            ) && fields@.len() > 0,
            Err(e) => match patch@ {
                JsonView::Object(m) => m.len() == 0 && e@ == "No settings provided"@,
                _ => e@ == "changes must be an object"@,
            },
        },
{
    match patch {
        Json::Object(fields) => {
            let ghost m = match patch@ {
                JsonView::Object(m) => m,
                _ => seq![],
            };
            assert(m =~= Seq::new(fields@.len(), |i: int| (fields@[i].0@, fields@[i].1@)));
            if fields.len() == 0 {
                Err("No settings provided")
            } else {
                Ok(fields)
            }
        },
        _ => Err("changes must be an object"),
    }
}

/// Add the keys of `members` (whose views are `ms`) to the ascending `keys`.
fn add_keys(
    keys: &mut Vec<String>,
    members: &Vec<(String, Json)>,
    Ghost(ms): Ghost<Seq<(Seq<char>, JsonView)>>,
)
    requires
        ascending(views(old(keys)@)),
        ms.len() == members@.len(),
        forall|i: int| 0 <= i < ms.len() ==> (#[trigger] ms[i]).0 == members@[i].0@,
    ensures
        ascending(views(final(keys)@)),
        views(final(keys)@).to_set() == views(old(keys)@).to_set() + keys_of(ms),
{
    let ghost start = views(keys@).to_set();
    let n = members.len();
    let mut i: usize = 0;
    assert(keys_upto(ms, 0) =~= Set::empty());
    assert(start + keys_upto(ms, 0) =~= start);
    while i < n
        invariant
            n == members@.len(),
            ms.len() == n,
            forall|a: int| 0 <= a < ms.len() ==> (#[trigger] ms[a]).0 == members@[a].0@,
            i <= n,
            ascending(views(keys@)),
            views(keys@).to_set() == start + keys_upto(ms, i as int),
        decreases n - i,
    {
        insert_key(keys, members[i].0.as_str());
        proof {
            lemma_keys_upto_next(ms, i as int);
            assert(ms[i as int].0 == members@[i as int].0@);
            assert(views(keys@).to_set() =~= start + keys_upto(ms, i + 1));
        }
        i = i + 1;
    }
}

/// The keys of both member lists, each once, in ascending order.
fn keys_in_order(
    before: &Vec<(String, Json)>,
    after: &Vec<(String, Json)>,
    Ghost(bm): Ghost<Seq<(Seq<char>, JsonView)>>,
    Ghost(am): Ghost<Seq<(Seq<char>, JsonView)>>,
) -> (r: Vec<String>)
    requires
        bm.len() == before@.len(),
        forall|i: int| 0 <= i < bm.len() ==> (#[trigger] bm[i]).0 == before@[i].0@,
        am.len() == after@.len(),
        forall|i: int| 0 <= i < am.len() ==> (#[trigger] am[i]).0 == after@[i].0@,
    ensures
        views(r@) == union_keys(bm, am),
{
    let mut keys: Vec<String> = Vec::new();
    assert(views(keys@).to_set() =~= Set::empty());
    add_keys(&mut keys, before, Ghost(bm));
    add_keys(&mut keys, after, Ghost(am));
    proof {
        let ks = views(keys@);
        assert(ks.to_set() =~= keys_of(bm) + keys_of(am));
        let u = union_keys(bm, am);
        assert(ascending(u) && u.to_set() == keys_of(bm) + keys_of(am));
        lemma_ascending_unique(ks, u);
    }
    keys
}

/// Where the part of `name` after its last dot begins.
fn segment_start(name: &str) -> (j: usize)
    ensures
        j <= name@.len(),
        last_segment(name@) == name@.skip(j as int),
{
    let n = name.unicode_len();
    let mut j: usize = n;
    assert(name@.take(n as int) =~= name@);
    assert(name@.take(n as int) + name@.subrange(n as int, n as int) =~= name@);
    while j > 0 && name.get_char(j - 1) != '.'
        invariant
            n == name@.len(),
            j <= n,
            last_segment(name@) == last_segment(name@.take(j as int)) + name@.subrange(
                j as int,
                n as int,
            ),
        decreases j,
    {
        let ghost t = name@.take(j as int);
        assert(t.drop_last() =~= name@.take(j - 1));
        assert(t.last() == name@[j - 1]);
        assert(last_segment(t) == last_segment(name@.take(j - 1)).push(name@[j - 1]));
        assert(last_segment(name@.take(j - 1)).push(name@[j - 1]) + name@.subrange(j as int, n as int)
            =~= last_segment(name@.take(j - 1)) + name@.subrange(j - 1, n as int));
        j = j - 1;
    }
    proof {
        if j == 0 {
            assert(name@.take(0) =~= seq![]);
        } else {
            assert(name@.take(j as int).last() == '.');
        }
        assert(last_segment(name@.take(j as int)) =~= seq![]);
        assert(seq![] + name@.subrange(j as int, n as int) =~= name@.skip(j as int));
    }
    j
}

/// The catalog label for `key`, if the catalog has one.
fn label_for<'a>(catalog: &'a Vec<Setting>, key: &str) -> (r: Option<&'a String>)
    ensures
        match r {
            Some(l) => label_of(catalog@, key@) == Some(l@),
            None => label_of(catalog@, key@) is None,
        },
{
    let n = catalog.len();
    let mut i: usize = 0;
    assert(catalog@.skip(0) =~= catalog@);
    while i < n
        invariant
            n == catalog@.len(),
            i <= n,
            label_of(catalog@, key@) == label_of(catalog@.skip(i as int), key@),
        decreases n - i,
    {
        assert(catalog@.skip(i as int).drop_first() =~= catalog@.skip(i + 1));
        if str_eq(catalog[i].key.as_str(), key) {
            return Some(&catalog[i].label);
        }
        i = i + 1;
    }
    None
}

/// `s` without the closing brackets at its end.
fn without_closing(s: &str) -> (r: &str)
    ensures
        r@ == trim_closing(s@),
{
    let n = s.unicode_len();
    let mut j: usize = n;
    assert(s@.take(n as int) =~= s@);
    while j > 0 && s.get_char(j - 1) == ')'
        invariant
            n == s@.len(),
            j <= n,
            trim_closing(s@) == trim_closing(s@.take(j as int)),
        decreases j,
    {
        assert(s@.take(j as int).drop_last() =~= s@.take(j - 1));
        j = j - 1;
    }
    s.substring_char(0, j)
}

/// How `v` reads in a line.
fn shown_text(v: &Json) -> (r: String)
    ensures
        r@ == shown(v@),
{
    match v {
        Json::Null => String::from_str("Auto"),
        Json::Str(s) => s.clone(),
        _ => to_text(v),
    }
}

/// The line for a changed leaf at path `name`.
fn leaf(name: &str, before: &Json, after: &Json, catalog: &Vec<Setting>) -> (r: String)
    ensures
        r@ == leaf_line(name@, before@, after@, catalog@),
{
    let n = name.unicode_len();
    let j = segment_start(name);
    let key = name.substring_char(j, n);
    let prefix = name.substring_char(0, j);
    assert(key@ =~= name@.skip(j as int));
    assert(prefix@ =~= name@.take(name@.len() - key@.len()));
    let full: &str = match label_for(catalog, key) {
        Some(l) => l.as_str(),
        None => key,
    };
    assert(full@ == full_label(catalog@, key@));
    proof {
        reveal_strlit(" (");
        reveal_strlit("");
    }
    let (bare, stated): (&str, &str) = match find(full, " (", 0) {
        Some(i) => {
            proof {
                lemma_find_from(full@, " ("@, 0);
            }
            let m = full.unicode_len();
            let rest = full.substring_char(i + 2, m);
            assert(rest@ =~= full@.skip(i + 2));
            (full.substring_char(0, i), without_closing(rest))
        },
        None => (full, ""),
    };
    let unit: &str = if str_eq(key, "kmin") || str_eq(key, "kmax") {
        "Å⁻¹"
    } else if str_eq(key, "rmin") || str_eq(key, "rmax") {
        "Å"
    } else {
        stated
    };
    assert(unit@ == unit_of(full@, key@));
    let mut line = String::from_str(prefix);
    line.append(bare);
    line.append(": ");
    let b = shown_text(before);
    line.append(b.as_str());
    line.append(" → ");
    let a = shown_text(after);
    line.append(a.as_str());
    if unit.unicode_len() > 0 {
        line.append(" ");
        line.append(unit);
    }
    assert(line@ =~= leaf_line(name@, before@, after@, catalog@));
    line
}

/// Whether some item is an object.
fn any_object(items: &Vec<Json>, Ghost(iv): Ghost<Seq<JsonView>>) -> (r: bool)
    requires
        iv.len() == items@.len(),
        forall|i: int| 0 <= i < iv.len() ==> #[trigger] iv[i] == items@[i]@,
    ensures
        r == holds_object(iv),
{
    let n = items.len();
    let mut i: usize = 0;
    while i < n
        invariant
            n == items@.len(),
            iv.len() == n,
            forall|k: int| 0 <= k < iv.len() ==> #[trigger] iv[k] == items@[k]@,
            i <= n,
            forall|k: int| 0 <= k < i ==> !(#[trigger] iv[k] is Object),
        decreases n - i,
    {
        if let Json::Object(_) = &items[i] {
            assert(iv[i as int] is Object);
            return true;
        }
        assert(!(iv[i as int] is Object));
        i = i + 1;
    }
    false
}

/// Append to `lines` the lines for the change from `before` to `after` at
/// path `name`.
#[verifier::loop_isolation(false)]
fn visit(name: &str, before: &Json, after: &Json, catalog: &Vec<Setting>, lines: &mut Vec<String>)
    ensures
        views(final(lines)@) == views(old(lines)@) + diff_lines(name@, before@, after@, catalog@),
    decreases size(before@) + size(after@),
{
    let ghost base = views(lines@);
    if equal(before, after) {
        assert(base + seq![] =~= base);
        return;
    }
    match (before, after) {
        (Json::Object(bm), Json::Object(am)) => {
            let ghost bv = match before@ {
                JsonView::Object(m) => m,
                _ => seq![],
            };
            let ghost av = match after@ {
                JsonView::Object(m) => m,
                _ => seq![],
            };
            assert(forall|i: int| 0 <= i < bv.len() ==> (#[trigger] bv[i]).0 == bm@[i].0@);
            assert(forall|i: int| 0 <= i < av.len() ==> (#[trigger] av[i]).0 == am@[i].0@);
            let keys = keys_in_order(bm, am, Ghost(bv), Ghost(av));
            let ghost kv = views(keys@);
            let null = Json::Null;
            let n = keys.len();
            let mut i: usize = 0;
            assert(kv.take(0) =~= seq![]);
            assert(base + seq![] =~= base);
            while i < n
                invariant
                    n == keys@.len(),
                    i <= n,
                    views(lines@) == base + diff_members(name@, kv.take(i as int), bv, av, catalog@),
                decreases n - i,
            {
                let key = keys[i].as_str();
                let cb: &Json = match get(before, key) {
                    Some(v) => v,
                    None => &null,
                };
                let ca: &Json = match get(after, key) {
                    Some(v) => v,
                    None => &null,
                };
                assert(cb@ == value_at(bv, key@));
                assert(ca@ == value_at(av, key@));
                let child = if name.unicode_len() == 0 {
                    String::from_str(key)
                } else {
                    String::from_str(name).concat(".").concat(key)
                };
                assert(child@ == member_name(name@, key@)) by {
                    reveal_strlit(".");
                }
                proof {
                    lemma_lookup_size(bv, key@);
                    lemma_lookup_size(av, key@);
                }
                let ghost before_step = views(lines@);
                visit(child.as_str(), cb, ca, catalog, lines);
                proof {
                    let t = kv.take(i + 1);
                    assert(t.drop_last() =~= kv.take(i as int));
                    assert(t.last() == key@);
                    assert(views(lines@) =~= base + diff_members(name@, t, bv, av, catalog@));
                }
                i = i + 1;
            }
            assert(kv.take(n as int) =~= kv);
        },
        (Json::Array(bi), Json::Array(ai)) => {
            let ghost bv = match before@ {
                JsonView::Array(v) => v,
                _ => seq![],
            };
            let ghost av = match after@ {
                JsonView::Array(v) => v,
                _ => seq![],
            };
            assert(forall|i: int| 0 <= i < bv.len() ==> #[trigger] bv[i] == bi@[i]@);
            assert(forall|i: int| 0 <= i < av.len() ==> #[trigger] av[i] == ai@[i]@);
            if !(any_object(bi, Ghost(bv)) || any_object(ai, Ghost(av))) {
                lines.push(leaf(name, before, after, catalog));
                assert(views(lines@) =~= base + seq![leaf_line(name@, before@, after@, catalog@)]);
                return;
            }
            let null = Json::Null;
            let n = if bi.len() >= ai.len() {
                bi.len()
            } else {
                ai.len()
            };
            let mut i: usize = 0;
            assert(base + seq![] =~= base);
            while i < n
                invariant
                    i <= n,
                    n == (if bv.len() >= av.len() {
                        bv.len()
                    } else {
                        av.len()
                    }),
                    views(lines@) == base + diff_items(name@, i as nat, bv, av, catalog@),
                decreases n - i,
            {
                let cb: &Json = if i < bi.len() {
                    &bi[i]
                } else {
                    &null
                };
                let ca: &Json = if i < ai.len() {
                    &ai[i]
                } else {
                    &null
                };
                assert(cb@ == item_at(bv, i as int));
                assert(ca@ == item_at(av, i as int));
                let digits = decimal_text(i as u64);
                let child = String::from_str(name).concat("[").concat(digits.as_str()).concat("]");
                assert(child@ =~= item_name(name@, i as nat));
                proof {
                    lemma_item_size(bv, i as int);
                    lemma_item_size(av, i as int);
                }
                visit(child.as_str(), cb, ca, catalog, lines);
                assert(views(lines@) =~= base + diff_items(name@, (i + 1) as nat, bv, av, catalog@));
                i = i + 1;
            }
        },
        _ => {
            lines.push(leaf(name, before, after, catalog));
            assert(views(lines@) =~= base + seq![leaf_line(name@, before@, after@, catalog@)]);
        },
    }
}

/// The changed fields from `before` to `after`, one line each: object
/// members in key order (a missing member counts as null), arrays that hold
/// an object item by item, every other changed value as
/// "label: old → new unit". The label and unit come from the first catalog
/// entry for the field's key; the k and R range ends have fixed units.
pub fn diff(before: &Json, after: &Json, catalog: &Vec<Setting>) -> (r: Vec<String>)
    ensures
        views(r@) == diff_lines(seq![], before@, after@, catalog@),
{
    let mut lines: Vec<String> = Vec::new();
    let top = "";
    proof {
        reveal_strlit("");
    }
    assert(top@ =~= Seq::<char>::empty());
    visit(top, before, after, catalog, &mut lines);
    assert(views(Seq::<String>::empty()) =~= seq![]);
    assert(seq![] + diff_lines(seq![], before@, after@, catalog@) =~= diff_lines(seq![], before@, after@, catalog@));
    lines
}

} // verus!

//! Named-address bindings.
//!
//! A compiled package resolves symbolic address names to concrete numeric
//! addresses.  The pipeline merges the bindings of the root package and of
//! every dependency into one map, and hands the compiler each binding as a
//! `name=value` line with the value printed in decimal.
//!
//! The merge rule is deliberate and load-bearing: tables are merged in
//! resolution order, a name keeps the position of its first occurrence, and
//! on a conflict the binding merged last wins.  The rendered `name=value`
//! lines are another matter: they come sorted by name and duplicate-free,
//! both proved below.

use vstd::pervasive::VecAdditionalExecFns;
use vstd::prelude::*;

verus! {

/// The character printed for one decimal digit.
pub open spec fn spec_digit_char(d: nat) -> char {
    if d == 0 {
        '0'
    } else if d == 1 {
        '1'
    } else if d == 2 {
        '2'
    } else if d == 3 {
        '3'
    } else if d == 4 {
        '4'
    } else if d == 5 {
        '5'
    } else if d == 6 {
        '6'
    } else if d == 7 {
        '7'
    } else if d == 8 {
        '8'
    } else {
        '9'
    }
}

/// The decimal rendering of `n`, most significant digit first, no sign and
/// no leading zero except for `n == 0` itself.
pub open spec fn spec_decimal(n: nat) -> Seq<char>
    decreases n,
{
    if n < 10 {
        seq![spec_digit_char(n)]
    } else {
        spec_decimal(n / 10) + seq![spec_digit_char(n % 10)]
    }
}

/// One `name=value` line as the compiler options carry it.
pub open spec fn spec_address_entry(name: Seq<char>, value: u128) -> Seq<char> {
    name + seq!['='] + spec_decimal(value as nat)
}

fn decimal_digit(d: u128) -> (r: &'static str)
    requires
        d < 10,
    ensures
        r@ == seq![spec_digit_char(d as nat)],
{
    let r: &'static str = if d == 0 {
        "0"
    } else if d == 1 {
        "1"
    } else if d == 2 {
        "2"
    } else if d == 3 {
        "3"
    } else if d == 4 {
        "4"
    } else if d == 5 {
        "5"
    } else if d == 6 {
        "6"
    } else if d == 7 {
        "7"
    } else if d == 8 {
        "8"
    } else {
        "9"
    };
    proof {
        reveal_strlit("0");
        reveal_strlit("1");
        reveal_strlit("2");
        reveal_strlit("3");
        reveal_strlit("4");
        reveal_strlit("5");
        reveal_strlit("6");
        reveal_strlit("7");
        reveal_strlit("8");
        reveal_strlit("9");
        assert(r@ =~= seq![spec_digit_char(d as nat)]);
    }
    r
}

/// Prints `n` in decimal.
pub fn u128_to_decimal(n: u128) -> (r: String)
    ensures
        r@ == spec_decimal(n as nat),
    decreases n,
{
    if n < 10 {
        decimal_digit(n).to_owned()
    } else {
        proof {
            assert(n / 10 < n) by (nonlinear_arith)
                requires
                    n >= 10,
            ;
        }
        let mut r = u128_to_decimal(n / 10);
        r.append(decimal_digit(n % 10));
        r
    }
}

/// Prints one binding as the `name=value` line the compiler options carry.
pub fn format_address_entry(name: &String, value: u128) -> (r: String)
    ensures
        r@ == spec_address_entry(name@, value),
{
    let mut r = name.clone();
    r.append("=");
    let digits = u128_to_decimal(value);
    r.append(digits.as_str());
    proof {
        reveal_strlit("=");
        assert("="@ =~= seq!['=']);
    }
    r
}

/// The bindings of a table, as (name, value) pairs of plain values.
pub open spec fn bindings_view(s: Seq<(String, u128)>) -> Seq<(Seq<char>, u128)> {
    s.map_values(|p: (String, u128)| (p.0@, p.1))
}

/// Inserting one binding: a name keeps the position of its first occurrence
/// and takes the new value; a new name goes to the end.
pub open spec fn spec_insert_binding(
    acc: Seq<(Seq<char>, u128)>,
    name: Seq<char>,
    value: u128,
) -> Seq<(Seq<char>, u128)>
    decreases acc.len(),
{
    if acc.len() == 0 {
        seq![(name, value)]
    } else if acc[0].0 == name {
        seq![(name, value)] + acc.skip(1)
    } else {
        seq![acc[0]] + spec_insert_binding(acc.skip(1), name, value)
    }
}

/// Merging a table: its bindings are inserted one by one, in order, so on a
/// conflict the binding merged last wins.
pub open spec fn spec_merge_bindings(
    acc: Seq<(Seq<char>, u128)>,
    more: Seq<(Seq<char>, u128)>,
) -> Seq<(Seq<char>, u128)>
    decreases more.len(),
{
    if more.len() == 0 {
        acc
    } else {
        spec_merge_bindings(spec_insert_binding(acc, more[0].0, more[0].1), more.skip(1))
    }
}

/// The value bound to `name`, scanning from the front.
pub open spec fn spec_lookup(s: Seq<(Seq<char>, u128)>, name: Seq<char>) -> Option<u128>
    decreases s.len(),
{
    if s.len() == 0 {
        Option::None
    } else if s[0].0 == name {
        Option::Some(s[0].1)
    } else {
        spec_lookup(s.skip(1), name)
    }
}

proof fn lemma_insert_past_clean_prefix(
    acc: Seq<(Seq<char>, u128)>,
    name: Seq<char>,
    value: u128,
    i: int,
)
    requires
        0 <= i <= acc.len(),
        forall|j: int| 0 <= j < i ==> acc[j].0 != name,
    ensures
        spec_insert_binding(acc, name, value) == acc.take(i) + spec_insert_binding(
            acc.skip(i),
            name,
            value,
        ),
    decreases i,
{
    if i == 0 {
        assert(acc.skip(0) =~= acc);
        assert(acc.take(0) + spec_insert_binding(acc, name, value) =~= spec_insert_binding(
            acc,
            name,
            value,
        ));
    } else {
        lemma_insert_past_clean_prefix(acc.skip(1), name, value, i - 1);
        assert(acc.skip(1).take(i - 1) =~= acc.take(i).skip(1));
        assert(acc.skip(1).skip(i - 1) =~= acc.skip(i));
        assert(seq![acc[0]] + (acc.take(i).skip(1) + spec_insert_binding(acc.skip(i), name, value))
            =~= acc.take(i) + spec_insert_binding(acc.skip(i), name, value));
    }
}

/// After an insert, the inserted name is bound to the inserted value.
pub proof fn lemma_insert_last_wins(acc: Seq<(Seq<char>, u128)>, name: Seq<char>, value: u128)
    ensures
        spec_lookup(spec_insert_binding(acc, name, value), name) == Option::Some(value),
    decreases acc.len(),
{
    if acc.len() == 0 {
    } else if acc[0].0 == name {
        assert(spec_insert_binding(acc, name, value)[0] == (name, value));
    } else {
        lemma_insert_last_wins(acc.skip(1), name, value);
        assert(spec_insert_binding(acc, name, value)[0] == acc[0]);
        assert(spec_insert_binding(acc, name, value).skip(1) =~= spec_insert_binding(
            acc.skip(1),
            name,
            value,
        ));
    }
}

/// An insert leaves every other name's binding unchanged.
pub proof fn lemma_insert_spares_others(
    acc: Seq<(Seq<char>, u128)>,
    name: Seq<char>,
    value: u128,
    other: Seq<char>,
)
    requires
        other != name,
    ensures
        spec_lookup(spec_insert_binding(acc, name, value), other) == spec_lookup(acc, other),
    decreases acc.len(),
{
    if acc.len() == 0 {
        reveal_with_fuel(spec_lookup, 3);
        assert(seq![(name, value)].skip(1) =~= Seq::<(Seq<char>, u128)>::empty());
    } else if acc[0].0 == name {
        assert(spec_insert_binding(acc, name, value)[0] == (name, value));
        assert(spec_insert_binding(acc, name, value).skip(1) =~= acc.skip(1));
    } else {
        lemma_insert_spares_others(acc.skip(1), name, value, other);
        assert(spec_insert_binding(acc, name, value)[0] == acc[0]);
        assert(spec_insert_binding(acc, name, value).skip(1) =~= spec_insert_binding(
            acc.skip(1),
            name,
            value,
        ));
    }
}

proof fn lemma_merge_snoc(
    acc: Seq<(Seq<char>, u128)>,
    more: Seq<(Seq<char>, u128)>,
    last: (Seq<char>, u128),
)
    ensures
        spec_merge_bindings(acc, more.push(last)) == spec_insert_binding(
            spec_merge_bindings(acc, more),
            last.0,
            last.1,
        ),
    decreases more.len(),
{
    if more.len() == 0 {
        reveal_with_fuel(spec_merge_bindings, 2);
        assert(more.push(last)[0] == last);
        assert(more.push(last).skip(1) =~= Seq::<(Seq<char>, u128)>::empty());
    } else {
        lemma_merge_snoc(spec_insert_binding(acc, more[0].0, more[0].1), more.skip(1), last);
        assert(more.push(last)[0] == more[0]);
        assert(more.push(last).skip(1) =~= more.skip(1).push(last));
    }
}

/// The last binding of a name in a table, scanning from the back.
pub open spec fn spec_last_binding(more: Seq<(Seq<char>, u128)>, name: Seq<char>) -> Option<u128>
    decreases more.len(),
{
    if more.len() == 0 {
        Option::None
    } else if more.last().0 == name {
        Option::Some(more.last().1)
    } else {
        spec_last_binding(more.drop_last(), name)
    }
}

/// The precedence rule of the whole merge, spelled out: after merging a
/// table, a name the table binds carries its last binding there, and a
/// name the table does not bind keeps whatever it had before.
pub proof fn lemma_merge_precedence(
    acc: Seq<(Seq<char>, u128)>,
    more: Seq<(Seq<char>, u128)>,
    name: Seq<char>,
)
    ensures
        spec_lookup(spec_merge_bindings(acc, more), name) == (match spec_last_binding(
            more,
            name,
        ) {
            Option::Some(v) => Option::Some(v),
            Option::None => spec_lookup(acc, name),
        }),
    decreases more.len(),
{
    if more.len() == 0 {
    } else {
        let front = more.drop_last();
        let last = more.last();
        assert(more =~= front.push(last));
        lemma_merge_snoc(acc, front, last);
        if last.0 == name {
            lemma_insert_last_wins(spec_merge_bindings(acc, front), name, last.1);
        } else {
            lemma_insert_spares_others(spec_merge_bindings(acc, front), last.0, last.1, name);
            lemma_merge_precedence(acc, front, name);
        }
    }
}

/// Every name bound at most once.
pub open spec fn unique_names(s: Seq<(Seq<char>, u128)>) -> bool {
    forall|i: int, j: int| 0 <= i < j < s.len() ==> s[i].0 != s[j].0
}

proof fn lemma_insert_binding_names(acc: Seq<(Seq<char>, u128)>, name: Seq<char>, value: u128)
    ensures
        forall|k: int|
            0 <= k < spec_insert_binding(acc, name, value).len() ==> (#[trigger] spec_insert_binding(
                acc,
                name,
                value,
            )[k].0 == name || exists|m: int|
                0 <= m < acc.len() && acc[m].0 == spec_insert_binding(acc, name, value)[k].0),
    decreases acc.len(),
{
    let r = spec_insert_binding(acc, name, value);
    if acc.len() == 0 {
    } else if acc[0].0 == name {
        assert forall|k: int| 0 <= k < r.len() implies (#[trigger] r[k].0 == name || exists|m: int|
            0 <= m < acc.len() && acc[m].0 == r[k].0) by {
            if k > 0 {
                assert(r[k] == acc[k]);
            }
        }
    } else {
        lemma_insert_binding_names(acc.skip(1), name, value);
        let tail = spec_insert_binding(acc.skip(1), name, value);
        assert forall|k: int| 0 <= k < r.len() implies (#[trigger] r[k].0 == name || exists|m: int|
            0 <= m < acc.len() && acc[m].0 == r[k].0) by {
            if k == 0 {
                assert(acc[0].0 == r[0].0);
            } else {
                assert(r[k] == tail[k - 1]);
                if tail[k - 1].0 != name {
                    let m = choose|m: int|
                        0 <= m < acc.skip(1).len() && acc.skip(1)[m].0 == tail[k - 1].0;
                    assert(acc[m + 1].0 == tail[k - 1].0);
                }
            }
        }
    }
}

/// An insert never introduces a second binding of any name.
pub proof fn lemma_insert_binding_keeps_unique(
    acc: Seq<(Seq<char>, u128)>,
    name: Seq<char>,
    value: u128,
)
    requires
        unique_names(acc),
    ensures
        unique_names(spec_insert_binding(acc, name, value)),
    decreases acc.len(),
{
    let r = spec_insert_binding(acc, name, value);
    if acc.len() == 0 {
    } else if acc[0].0 == name {
        assert forall|i: int, j: int| 0 <= i < j < r.len() implies r[i].0 != r[j].0 by {
            assert(r[j] == acc[j]);
            if i > 0 {
                assert(r[i] == acc[i]);
            }
        }
    } else {
        assert(unique_names(acc.skip(1))) by {
            assert forall|i: int, j: int|
                0 <= i < j < acc.skip(1).len() implies acc.skip(1)[i].0 != acc.skip(1)[j].0 by {
                assert(acc.skip(1)[i] == acc[i + 1] && acc.skip(1)[j] == acc[j + 1]);
            }
        }
        lemma_insert_binding_keeps_unique(acc.skip(1), name, value);
        lemma_insert_binding_names(acc.skip(1), name, value);
        let tail = spec_insert_binding(acc.skip(1), name, value);
        assert forall|i: int, j: int| 0 <= i < j < r.len() implies r[i].0 != r[j].0 by {
            if i == 0 {
                assert(r[j] == tail[j - 1]);
                if tail[j - 1].0 != name {
                    let m = choose|m: int|
                        0 <= m < acc.skip(1).len() && acc.skip(1)[m].0 == tail[j - 1].0;
                    assert(acc[m + 1].0 == tail[j - 1].0);
                    assert(acc[0].0 != acc[m + 1].0);
                }
            } else {
                assert(r[i] == tail[i - 1] && r[j] == tail[j - 1]);
            }
        }
    }
}

/// The merged table is duplicate-free: merging binds every name at most
/// once, whatever the tables held.
pub proof fn lemma_merge_unique_names(
    acc: Seq<(Seq<char>, u128)>,
    more: Seq<(Seq<char>, u128)>,
)
    requires
        unique_names(acc),
    ensures
        unique_names(spec_merge_bindings(acc, more)),
    decreases more.len(),
{
    if more.len() == 0 {
    } else {
        lemma_insert_binding_keeps_unique(acc, more[0].0, more[0].1);
        lemma_merge_unique_names(
            spec_insert_binding(acc, more[0].0, more[0].1),
            more.skip(1),
        );
    }
}

/// Strict lexicographic order on names, by Unicode scalar value; a proper
/// prefix comes first.
pub open spec fn lex_lt(a: Seq<char>, b: Seq<char>) -> bool
    decreases a.len(),
{
    if b.len() == 0 {
        false
    } else if a.len() == 0 {
        true
    } else if a[0] != b[0] {
        (a[0] as u32) < (b[0] as u32)
    } else {
        lex_lt(a.skip(1), b.skip(1))
    }
}

/// Whether `a` comes before `b` in the rendered mapping.
pub fn string_lex_lt(a: &String, b: &String) -> (r: bool)
    ensures
        r == lex_lt(a@, b@),
{
    let s = a.as_str();
    let t = b.as_str();
    let ns = s.unicode_len();
    let nt = t.unicode_len();
    let mut i: usize = 0;
    proof {
        assert(a@.skip(0) =~= a@);
        assert(b@.skip(0) =~= b@);
    }
    while i < ns && i < nt
        invariant
            i <= ns,
            i <= nt,
            ns == a@.len(),
            nt == b@.len(),
            s@ == a@,
            t@ == b@,
            forall|j: int| 0 <= j < i ==> a@[j] == b@[j],
            lex_lt(a@, b@) == lex_lt(a@.skip(i as int), b@.skip(i as int)),
        decreases ns - i,
    {
        let ca = s.get_char(i);
        let cb = t.get_char(i);
        if ca != cb {
            proof {
                assert(a@.skip(i as int)[0] == a@[i as int]);
                assert(b@.skip(i as int)[0] == b@[i as int]);
            }
            return (ca as u32) < (cb as u32);
        }
        proof {
            assert(a@.skip(i as int)[0] == b@.skip(i as int)[0]);
            assert(a@.skip(i as int).skip(1) =~= a@.skip((i + 1) as int));
            assert(b@.skip(i as int).skip(1) =~= b@.skip((i + 1) as int));
        }
        i = i + 1;
    }
    proof {
        if i == ns {
            assert(a@.skip(i as int).len() == 0);
        } else {
            assert(b@.skip(i as int).len() == 0);
        }
    }
    ns < nt
}

/// Placing one binding into a name-sorted list: before the first entry
/// whose name comes later.
pub open spec fn spec_insert_sorted(
    acc: Seq<(Seq<char>, u128)>,
    b: (Seq<char>, u128),
) -> Seq<(Seq<char>, u128)>
    decreases acc.len(),
{
    if acc.len() == 0 {
        seq![b]
    } else if lex_lt(b.0, acc[0].0) {
        seq![b] + acc
    } else {
        seq![acc[0]] + spec_insert_sorted(acc.skip(1), b)
    }
}

/// The bindings of a table arranged by name, as the compiler options
/// render them.
pub open spec fn spec_sort_bindings(s: Seq<(Seq<char>, u128)>) -> Seq<(Seq<char>, u128)>
    decreases s.len(),
{
    if s.len() == 0 {
        Seq::empty()
    } else {
        spec_insert_sorted(spec_sort_bindings(s.drop_last()), s.last())
    }
}

/// No entry strictly precedes an earlier one: the rendered order.
pub open spec fn sorted_by_name(s: Seq<(Seq<char>, u128)>) -> bool {
    forall|i: int, j: int| 0 <= i < j < s.len() ==> !lex_lt(s[j].0, s[i].0)
}

proof fn lemma_lex_lt_asymmetric(a: Seq<char>, b: Seq<char>)
    requires
        lex_lt(a, b),
    ensures
        !lex_lt(b, a),
    decreases a.len(),
{
    if b.len() == 0 {
    } else if a.len() == 0 {
    } else if a[0] != b[0] {
    } else {
        lemma_lex_lt_asymmetric(a.skip(1), b.skip(1));
    }
}

proof fn lemma_lex_lt_transitive(a: Seq<char>, b: Seq<char>, c: Seq<char>)
    requires
        lex_lt(a, b),
        lex_lt(b, c),
    ensures
        lex_lt(a, c),
    decreases a.len(),
{
    if a.len() == 0 {
    } else if a[0] == b[0] && b[0] == c[0] {
        lemma_lex_lt_transitive(a.skip(1), b.skip(1), c.skip(1));
    } else {
        assert((a[0] as u32) <= (b[0] as u32));
        assert((b[0] as u32) <= (c[0] as u32));
    }
}

proof fn lemma_insert_sorted_members(acc: Seq<(Seq<char>, u128)>, b: (Seq<char>, u128))
    ensures
        spec_insert_sorted(acc, b).len() == acc.len() + 1,
        forall|k: int|
            0 <= k < spec_insert_sorted(acc, b).len() ==> (#[trigger] spec_insert_sorted(acc, b)[k]
                == b || acc.contains(spec_insert_sorted(acc, b)[k])),
    decreases acc.len(),
{
    let r = spec_insert_sorted(acc, b);
    if acc.len() == 0 {
    } else if lex_lt(b.0, acc[0].0) {
        assert forall|k: int| 0 <= k < r.len() implies (#[trigger] r[k] == b || acc.contains(
            r[k],
        )) by {
            if k > 0 {
                assert(r[k] == acc[k - 1]);
            }
        }
    } else {
        lemma_insert_sorted_members(acc.skip(1), b);
        let tail = spec_insert_sorted(acc.skip(1), b);
        assert forall|k: int| 0 <= k < r.len() implies (#[trigger] r[k] == b || acc.contains(
            r[k],
        )) by {
            if k == 0 {
                assert(acc.contains(acc[0]));
            } else {
                assert(r[k] == tail[k - 1]);
                if tail[k - 1] != b {
                    let m = choose|m: int| 0 <= m < acc.skip(1).len() && acc.skip(1)[m] == tail[
                        k - 1
                    ];
                    assert(acc[m + 1] == tail[k - 1]);
                }
            }
        }
    }
}

proof fn lemma_insert_sorted_keeps_order(acc: Seq<(Seq<char>, u128)>, b: (Seq<char>, u128))
    requires
        sorted_by_name(acc),
    ensures
        sorted_by_name(spec_insert_sorted(acc, b)),
    decreases acc.len(),
{
    let r = spec_insert_sorted(acc, b);
    if acc.len() == 0 {
    } else if lex_lt(b.0, acc[0].0) {
        assert forall|i: int, j: int| 0 <= i < j < r.len() implies !lex_lt(r[j].0, r[i].0) by {
            if i == 0 {
                assert(r[j] == acc[j - 1]);
                if lex_lt(acc[j - 1].0, b.0) {
                    if j == 1 {
                        lemma_lex_lt_asymmetric(b.0, acc[0].0);
                    } else {
                        lemma_lex_lt_transitive(acc[j - 1].0, b.0, acc[0].0);
                        assert(!lex_lt(acc[j - 1].0, acc[0].0));
                    }
                }
            } else {
                assert(r[i] == acc[i - 1] && r[j] == acc[j - 1]);
            }
        }
    } else {
        assert(sorted_by_name(acc.skip(1))) by {
            assert forall|i: int, j: int|
                0 <= i < j < acc.skip(1).len() implies !lex_lt(
                acc.skip(1)[j].0,
                acc.skip(1)[i].0,
            ) by {
                assert(acc.skip(1)[i] == acc[i + 1] && acc.skip(1)[j] == acc[j + 1]);
            }
        }
        lemma_insert_sorted_keeps_order(acc.skip(1), b);
        lemma_insert_sorted_members(acc.skip(1), b);
        let tail = spec_insert_sorted(acc.skip(1), b);
        assert forall|i: int, j: int| 0 <= i < j < r.len() implies !lex_lt(r[j].0, r[i].0) by {
            if i == 0 {
                assert(r[j] == tail[j - 1]);
                if tail[j - 1] == b {
                } else {
                    let m = choose|m: int|
                        0 <= m < acc.skip(1).len() && acc.skip(1)[m] == tail[j - 1];
                    assert(acc[m + 1] == tail[j - 1]);
                }
            } else {
                assert(r[i] == tail[i - 1] && r[j] == tail[j - 1]);
            }
        }
    }
}

/// The rendering order, spelled out: however the bindings were merged,
/// their rendered arrangement is sorted by name.
pub proof fn lemma_sort_bindings_sorted(s: Seq<(Seq<char>, u128)>)
    ensures
        sorted_by_name(spec_sort_bindings(s)),
    decreases s.len(),
{
    if s.len() == 0 {
    } else {
        lemma_sort_bindings_sorted(s.drop_last());
        lemma_insert_sorted_keeps_order(spec_sort_bindings(s.drop_last()), s.last());
    }
}

proof fn lemma_insert_sorted_keeps_unique(acc: Seq<(Seq<char>, u128)>, b: (Seq<char>, u128))
    requires
        unique_names(acc),
        forall|m: int| 0 <= m < acc.len() ==> acc[m].0 != b.0,
    ensures
        unique_names(spec_insert_sorted(acc, b)),
    decreases acc.len(),
{
    let r = spec_insert_sorted(acc, b);
    if acc.len() == 0 {
    } else if lex_lt(b.0, acc[0].0) {
        assert forall|i: int, j: int| 0 <= i < j < r.len() implies r[i].0 != r[j].0 by {
            assert(r[j] == acc[j - 1]);
            if i > 0 {
                assert(r[i] == acc[i - 1]);
            }
        }
    } else {
        assert(unique_names(acc.skip(1))) by {
            assert forall|i: int, j: int|
                0 <= i < j < acc.skip(1).len() implies acc.skip(1)[i].0 != acc.skip(1)[j].0 by {
                assert(acc.skip(1)[i] == acc[i + 1] && acc.skip(1)[j] == acc[j + 1]);
            }
        }
        assert(forall|m: int| 0 <= m < acc.skip(1).len() ==> acc.skip(1)[m].0 != b.0) by {
            assert(forall|m: int| 0 <= m < acc.skip(1).len() ==> acc.skip(1)[m] == acc[m + 1]);
        }
        lemma_insert_sorted_keeps_unique(acc.skip(1), b);
        lemma_insert_sorted_members(acc.skip(1), b);
        let tail = spec_insert_sorted(acc.skip(1), b);
        assert forall|i: int, j: int| 0 <= i < j < r.len() implies r[i].0 != r[j].0 by {
            if i == 0 {
                assert(r[j] == tail[j - 1]);
                if tail[j - 1] == b {
                } else {
                    let m = choose|m: int|
                        0 <= m < acc.skip(1).len() && acc.skip(1)[m] == tail[j - 1];
                    assert(acc[m + 1] == tail[j - 1]);
                    assert(acc[0].0 != acc[m + 1].0);
                }
            } else {
                assert(r[i] == tail[i - 1] && r[j] == tail[j - 1]);
            }
        }
    }
}

proof fn lemma_sort_bindings_members(s: Seq<(Seq<char>, u128)>)
    ensures
        spec_sort_bindings(s).len() == s.len(),
        forall|k: int|
            0 <= k < spec_sort_bindings(s).len() ==> s.contains(
                #[trigger] spec_sort_bindings(s)[k],
            ),
    decreases s.len(),
{
    let r = spec_sort_bindings(s);
    if s.len() == 0 {
    } else {
        lemma_sort_bindings_members(s.drop_last());
        let front = spec_sort_bindings(s.drop_last());
        lemma_insert_sorted_members(front, s.last());
        assert forall|k: int| 0 <= k < r.len() implies s.contains(#[trigger] r[k]) by {
            if r[k] == s.last() {
                assert(s[s.len() - 1] == s.last());
            } else {
                let m = choose|m: int| 0 <= m < front.len() && front[m] == r[k];
                assert(s.drop_last().contains(front[m]));
                let n = choose|n: int| 0 <= n < s.drop_last().len() && s.drop_last()[n] == front[m];
                assert(s[n] == front[m]);
            }
        }
    }
}

/// The rendered arrangement binds every name at most once, as the merged
/// table it arranges does.
pub proof fn lemma_sort_bindings_keeps_unique(s: Seq<(Seq<char>, u128)>)
    requires
        unique_names(s),
    ensures
        unique_names(spec_sort_bindings(s)),
    decreases s.len(),
{
    if s.len() == 0 {
    } else {
        assert(unique_names(s.drop_last())) by {
            assert(forall|i: int|
                0 <= i < s.drop_last().len() ==> s.drop_last()[i] == s[i]);
        }
        lemma_sort_bindings_keeps_unique(s.drop_last());
        lemma_sort_bindings_members(s.drop_last());
        let front = spec_sort_bindings(s.drop_last());
        assert forall|m: int| 0 <= m < front.len() implies front[m].0 != s.last().0 by {
            let n = choose|n: int| 0 <= n < s.drop_last().len() && s.drop_last()[n] == front[m];
            assert(s[n] == front[m]);
            assert(s[n].0 != s[s.len() - 1].0);
        }
        lemma_insert_sorted_keeps_unique(front, s.last());
    }
}

proof fn lemma_insert_sorted_past_smaller_prefix(
    acc: Seq<(Seq<char>, u128)>,
    b: (Seq<char>, u128),
    i: int,
)
    requires
        0 <= i <= acc.len(),
        forall|j: int| 0 <= j < i ==> !lex_lt(b.0, acc[j].0),
    ensures
        spec_insert_sorted(acc, b) == acc.take(i) + spec_insert_sorted(acc.skip(i), b),
    decreases i,
{
    if i == 0 {
        assert(acc.skip(0) =~= acc);
        assert(acc.take(0) + spec_insert_sorted(acc, b) =~= spec_insert_sorted(acc, b));
    } else {
        lemma_insert_sorted_past_smaller_prefix(acc.skip(1), b, i - 1);
        assert(acc.skip(1).take(i - 1) =~= acc.take(i).skip(1));
        assert(acc.skip(1).skip(i - 1) =~= acc.skip(i));
        assert(seq![acc[0]] + (acc.take(i).skip(1) + spec_insert_sorted(acc.skip(i), b))
            =~= acc.take(i) + spec_insert_sorted(acc.skip(i), b));
    }
}

fn push_binding_sorted(acc: &mut Vec<(String, u128)>, name: String, value: u128)
    ensures
        bindings_view(final(acc)@) == spec_insert_sorted(
            bindings_view(old(acc)@),
            (name@, value),
        ),
{
    let ghost start = bindings_view(old(acc)@);
    let ghost bv = (name@, value);
    let mut j: usize = 0;
    while j < acc.len()
        invariant
            j <= acc.len(),
            start == bindings_view(old(acc)@),
            start == bindings_view(acc@),
            bv == (name@, value),
            forall|k: int| 0 <= k < j ==> !lex_lt(bv.0, start[k].0),
        decreases acc.len() - j,
    {
        if string_lex_lt(&name, &acc[j].0) {
            proof {
                lemma_insert_sorted_past_smaller_prefix(start, bv, j as int);
                assert(start.skip(j as int)[0] == start[j as int]);
                assert(lex_lt(bv.0, start.skip(j as int)[0].0));
                assert(spec_insert_sorted(start.skip(j as int), bv) =~= seq![bv] + start.skip(
                    j as int,
                ));
            }
            let ghost before = bindings_view(acc@);
            acc.insert(j, (name, value));
            proof {
                assert(bindings_view(acc@) =~= before.insert(j as int, bv));
                assert(before.insert(j as int, bv) =~= before.take(j as int) + (seq![bv]
                    + before.skip(j as int)));
            }
            return ;
        }
        j = j + 1;
    }
    proof {
        lemma_insert_sorted_past_smaller_prefix(start, bv, start.len() as int);
        assert(start.take(start.len() as int) =~= start);
        assert(start.skip(start.len() as int) =~= Seq::<(Seq<char>, u128)>::empty());
    }
    let ghost pre = bindings_view(acc@);
    acc.push((name, value));
    proof {
        assert(bindings_view(acc@) =~= pre.push(bv));
        assert(pre + seq![bv] =~= pre.push(bv));
    }
}

/// Arranges a table's bindings by name.
fn sort_bindings(v: &Vec<(String, u128)>) -> (r: Vec<(String, u128)>)
    ensures
        bindings_view(r@) == spec_sort_bindings(bindings_view(v@)),
{
    let ghost goal = bindings_view(v@);
    let mut out: Vec<(String, u128)> = Vec::new();
    proof {
        assert(goal.take(0) =~= Seq::<(Seq<char>, u128)>::empty());
        assert(bindings_view(out@) =~= spec_sort_bindings(goal.take(0)));
    }
    let mut i: usize = 0;
    while i < v.len()
        invariant
            i <= v.len(),
            goal == bindings_view(v@),
            bindings_view(out@) == spec_sort_bindings(goal.take(i as int)),
        decreases v.len() - i,
    {
        push_binding_sorted(&mut out, v[i].0.clone(), v[i].1);
        proof {
            assert(goal.take((i + 1) as int).drop_last() =~= goal.take(i as int));
            assert(goal.take((i + 1) as int).last() == (v@[i as int].0@, v@[i as int].1));
        }
        i = i + 1;
    }
    proof {
        assert(goal.take(goal.len() as int) =~= goal);
    }
    out
}

/// The rendered named-address mapping of any build, as the contracts of
/// the option builders state it — the sorted arrangement of the merged
/// tables — is sorted by name and binds every name at most once.
pub proof fn lemma_rendered_mapping_ordered(tables: Seq<(Seq<char>, u128)>)
    ensures
        sorted_by_name(spec_sort_bindings(spec_merge_bindings(Seq::empty(), tables))),
        unique_names(spec_sort_bindings(spec_merge_bindings(Seq::empty(), tables))),
{
    let merged = spec_merge_bindings(Seq::empty(), tables);
    lemma_merge_unique_names(Seq::empty(), tables);
    lemma_sort_bindings_keeps_unique(merged);
    lemma_sort_bindings_sorted(merged);
}

/// The ordered named-address map of a session: bindings in first-occurrence
/// order, no name twice, conflicts resolved in favour of the table merged
/// last.
pub struct NamedAddressMap {
    pub entries: Vec<(String, u128)>,
}

impl NamedAddressMap {
    pub open spec fn bindings(&self) -> Seq<(Seq<char>, u128)> {
        bindings_view(self.entries@)
    }

    pub fn new() -> (r: Self)
        ensures
            r.bindings() == Seq::<(Seq<char>, u128)>::empty(),
    {
        let r = NamedAddressMap { entries: Vec::new() };
        proof {
            assert(r.bindings() =~= Seq::<(Seq<char>, u128)>::empty());
        }
        r
    }

    /// Inserts one binding under the merge rule.
    pub fn insert(&mut self, name: String, value: u128)
        ensures
            final(self).bindings() == spec_insert_binding(old(self).bindings(), name@, value),
    {
        let ghost start = old(self).bindings();
        proof {
            assert(self.bindings() == start);
        }
        let mut i: usize = 0;
        while i < self.entries.len()
            invariant
                i <= self.entries.len(),
                start == old(self).bindings(),
                self.bindings() == start,
                forall|j: int| 0 <= j < i ==> start[j].0 != name@,
            decreases self.entries.len() - i,
        {
            if self.entries[i].0.eq(&name) {
                proof {
                    lemma_insert_past_clean_prefix(start, name@, value, i as int);
                    assert(start.skip(i as int)[0].0 == name@);
                    assert(spec_insert_binding(start.skip(i as int), name@, value) =~= seq![
                        (name@, value),
                    ] + start.skip(i + 1));
                }
                let ghost nv = name@;
                self.entries.set(i, (name.clone(), value));
                proof {
                    assert(start.take(i as int) + (seq![(nv, value)] + start.skip(i + 1)) =~= start.update(
                        i as int,
                        (nv, value),
                    ));
                    assert(spec_insert_binding(start, nv, value) == start.update(
                        i as int,
                        (nv, value),
                    ));
                    assert(self.bindings() =~= start.update(i as int, (nv, value)));
                }
                return ;
            }
            i = i + 1;
        }
        proof {
            lemma_insert_past_clean_prefix(start, name@, value, start.len() as int);
            assert(start.take(start.len() as int) =~= start);
            assert(start.skip(start.len() as int) =~= Seq::<(Seq<char>, u128)>::empty());
        }
        let ghost pre = self.bindings();
        let ghost nv = name@;
        self.entries.push((name.clone(), value));
        proof {
            assert(self.bindings() =~= pre.push((nv, value)));
            assert(pre + seq![(nv, value)] =~= pre.push((nv, value)));
        }
    }

    /// Merges a whole table, in order.
    pub fn merge_from(&mut self, table: &Vec<(String, u128)>)
        ensures
            final(self).bindings() == spec_merge_bindings(
                old(self).bindings(),
                bindings_view(table@),
            ),
    {
        let ghost start = old(self).bindings();
        let ghost goal = bindings_view(table@);
        proof {
            assert(self.bindings() == start);
        }
        proof {
            assert(goal.skip(0) =~= goal);
        }
        let mut i: usize = 0;
        while i < table.len()
            invariant
                i <= table.len(),
                goal == bindings_view(table@),
                spec_merge_bindings(self.bindings(), goal.skip(i as int)) == spec_merge_bindings(
                    start,
                    goal,
                ),
            decreases table.len() - i,
        {
            let ghost before = self.bindings();
            let name = table[i].0.clone();
            let value = table[i].1;
            self.insert(name, value);
            proof {
                assert(goal.skip(i as int)[0] == (table@[i as int].0@, table@[i as int].1));
                assert(goal.skip(i as int).skip(1) =~= goal.skip(i + 1));
            }
            i = i + 1;
        }
        proof {
            assert(goal.skip(goal.len() as int) =~= Seq::<(Seq<char>, u128)>::empty());
        }
    }

    /// The value bound to a name, if any.
    pub fn lookup(&self, name: &String) -> (r: Option<u128>)
        ensures
            r == spec_lookup(self.bindings(), name@),
    {
        proof {
            assert(self.bindings().skip(0) =~= self.bindings());
        }
        let mut i: usize = 0;
        while i < self.entries.len()
            invariant
                i <= self.entries.len(),
                spec_lookup(self.bindings().skip(i as int), name@) == spec_lookup(
                    self.bindings(),
                    name@,
                ),
            decreases self.entries.len() - i,
        {
            if self.entries[i].0.eq(name) {
                proof {
                    assert(self.bindings().skip(i as int)[0] == (
                        self.entries@[i as int].0@,
                        self.entries@[i as int].1,
                    ));
                }
                return Option::Some(self.entries[i].1);
            }
            proof {
                assert(self.bindings().skip(i as int)[0].0 != name@);
                assert(self.bindings().skip(i as int).skip(1) =~= self.bindings().skip(i + 1));
            }
            i = i + 1;
        }
        proof {
            assert(self.bindings().skip(self.entries@.len() as int) =~= Seq::<
                (Seq<char>, u128),
            >::empty());
        }
        Option::None
    }

    /// Every binding as its `name=value` line, sorted by name, as the
    /// compiler options render the map.
    pub fn format_entries(&self) -> (r: Vec<String>)
        ensures
            r.deep_view() == spec_sort_bindings(self.bindings()).map_values(
                |b: (Seq<char>, u128)| spec_address_entry(b.0, b.1),
            ),
    {
        let ordered = sort_bindings(&self.entries);
        let ghost goal = spec_sort_bindings(self.bindings()).map_values(
            |b: (Seq<char>, u128)| spec_address_entry(b.0, b.1),
        );
        let mut lines: Vec<String> = Vec::new();
        let mut i: usize = 0;
        proof {
            assert(lines.deep_view() =~= goal.take(0));
        }
        while i < ordered.len()
            invariant
                i <= ordered.len(),
                goal == spec_sort_bindings(self.bindings()).map_values(
                    |b: (Seq<char>, u128)| spec_address_entry(b.0, b.1),
                ),
                bindings_view(ordered@) == spec_sort_bindings(self.bindings()),
                lines.deep_view() == goal.take(i as int),
            decreases ordered.len() - i,
        {
            let ghost pre = lines.deep_view();
            let line = format_address_entry(&ordered[i].0, ordered[i].1);
            let ghost lv = line@;
            lines.push(line);
            proof {
                assert(lines.deep_view() =~= pre.push(lv));
                assert(goal[i as int] == spec_address_entry(
                    ordered@[i as int].0@,
                    ordered@[i as int].1,
                ));
                assert(lines.deep_view() =~= goal.take((i + 1) as int));
            }
            i = i + 1;
        }
        proof {
            assert(goal.take(goal.len() as int) =~= goal);
        }
        lines
    }
}

} // verus!

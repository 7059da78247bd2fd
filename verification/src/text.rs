//! Operations on text that the runtime code generation needs: the order of
//! strings, sorting, joining, and numbers as decimal text.

use vstd::prelude::*;

verus! {

/// Whether `a` comes before `b` in the order of `str`'s comparison: by the
/// first character in which they differ (by its code point), else the
/// shorter first.
pub open spec fn lex_lt(a: Seq<char>, b: Seq<char>) -> bool
    decreases a.len(),
{
    if a.len() == 0 {
        b.len() > 0
    } else if b.len() == 0 {
        false
    } else if a[0] != b[0] {
        (a[0] as int) < (b[0] as int)
    } else {
        lex_lt(a.drop_first(), b.drop_first())
    }
}

/// No string comes before itself.
pub proof fn lemma_lex_lt_irreflexive(a: Seq<char>)
    ensures
        !lex_lt(a, a),
    decreases a.len(),
{
    if a.len() > 0 {
        lemma_lex_lt_irreflexive(a.drop_first());
    }
}

/// Of two strings, at most one comes before the other.
pub proof fn lemma_lex_lt_asymmetric(a: Seq<char>, b: Seq<char>)
    ensures
        !(lex_lt(a, b) && lex_lt(b, a)),
    decreases a.len(),
{
    if a.len() > 0 && b.len() > 0 && a[0] == b[0] {
        lemma_lex_lt_asymmetric(a.drop_first(), b.drop_first());
    }
}

/// Of two different strings, one comes before the other.
pub proof fn lemma_lex_lt_total(a: Seq<char>, b: Seq<char>)
    ensures
        a == b || lex_lt(a, b) || lex_lt(b, a),
    decreases a.len(),
{
    if a.len() > 0 && b.len() > 0 && a[0] == b[0] {
        lemma_lex_lt_total(a.drop_first(), b.drop_first());
        if a.drop_first() == b.drop_first() {
            assert(a =~= seq![a[0]] + a.drop_first());
            assert(b =~= seq![b[0]] + b.drop_first());
        }
    } else if a.len() == 0 && b.len() == 0 {
        assert(a =~= b);
    }
}

/// The order is transitive.
pub proof fn lemma_lex_lt_transitive(a: Seq<char>, b: Seq<char>, c: Seq<char>)
    requires
        lex_lt(a, b),
        lex_lt(b, c),
    ensures
        lex_lt(a, c),
    decreases a.len(),
{
    if a.len() > 0 && b.len() > 0 && c.len() > 0 && a[0] == b[0] && b[0] == c[0] {
        lemma_lex_lt_transitive(a.drop_first(), b.drop_first(), c.drop_first());
    }
}

/// Whether `a` comes before `b`, by the order of `str`'s comparison.
pub fn str_lt(a: &str, b: &str) -> (r: bool)
    ensures
        r == lex_lt(a@, b@),
{
    let la = a.unicode_len();
    let lb = b.unicode_len();
    let mut i: usize = 0;
    assert(a@.skip(0) =~= a@);
    assert(b@.skip(0) =~= b@);
    while i < la && i < lb
        invariant
            la == a@.len(),
            lb == b@.len(),
            i <= la,
            i <= lb,
            lex_lt(a@, b@) == lex_lt(a@.skip(i as int), b@.skip(i as int)),
        decreases la - i,
    {
        let ca = a.get_char(i);
        let cb = b.get_char(i);
        if ca != cb {
            assert(a@.skip(i as int)[0] == ca);
            assert(b@.skip(i as int)[0] == cb);
            return (ca as u32) < (cb as u32);
        }
        assert(a@.skip(i as int).drop_first() =~= a@.skip(i + 1));
        assert(b@.skip(i as int).drop_first() =~= b@.skip(i + 1));
        i = i + 1;
    }
    i < lb
}

/// Whether the strings come in the order of `str`'s comparison, each before
/// the next (so no string is there twice).
pub open spec fn strictly_sorted(s: Seq<Seq<char>>) -> bool {
    forall|i: int, j: int| 0 <= i < j < s.len() ==> lex_lt(#[trigger] s[i], #[trigger] s[j])
}

/// Two strictly sorted sequences of the same strings are the same.
pub proof fn lemma_strictly_sorted_unique(s1: Seq<Seq<char>>, s2: Seq<Seq<char>>)
    requires
        strictly_sorted(s1),
        strictly_sorted(s2),
        s1.to_set() == s2.to_set(),
    ensures
        s1 == s2,
    decreases s1.len(),
{
    if s1.len() == 0 {
        if s2.len() > 0 {
            assert(s2.to_set().contains(s2[0]));
        }
        assert(s1 =~= s2);
    } else {
        assert(s1.to_set().contains(s1[0]));
        assert(s2.to_set().contains(s1[0]));
        let k = choose|k: int| 0 <= k < s2.len() && s2[k] == s1[0];
        assert(s2.to_set().contains(s2[0]));
        assert(s1.to_set().contains(s2[0]));
        let m = choose|m: int| 0 <= m < s1.len() && s1[m] == s2[0];
        if k != 0 {
            assert(lex_lt(s2[0], s2[k]));
            if m != 0 {
                assert(lex_lt(s1[0], s1[m]));
                lemma_lex_lt_asymmetric(s1[0], s2[0]);
            } else {
                lemma_lex_lt_irreflexive(s1[0]);
            }
        }
        assert(s1[0] == s2[0]);
        let t1 = s1.drop_first();
        let t2 = s2.drop_first();
        assert forall|x: Seq<char>| t1.to_set().contains(x) implies t2.to_set().contains(x) by {
            let i = choose|i: int| 0 <= i < t1.len() && t1[i] == x;
            assert(s1.to_set().contains(s1[i + 1]));
            let j = choose|j: int| 0 <= j < s2.len() && s2[j] == x;
            if j == 0 {
                assert(lex_lt(s1[0], s1[i + 1]));
                lemma_lex_lt_irreflexive(x);
            }
            assert(t2[j - 1] == x);
        }
        assert forall|x: Seq<char>| t2.to_set().contains(x) implies t1.to_set().contains(x) by {
            let i = choose|i: int| 0 <= i < t2.len() && t2[i] == x;
            assert(s2.to_set().contains(s2[i + 1]));
            let j = choose|j: int| 0 <= j < s1.len() && s1[j] == x;
            if j == 0 {
                assert(lex_lt(s2[0], s2[i + 1]));
                lemma_lex_lt_irreflexive(x);
            }
            assert(t1[j - 1] == x);
        }
        assert(t1.to_set() =~= t2.to_set());
        lemma_strictly_sorted_unique(t1, t2);
        assert(s1 =~= seq![s1[0]] + t1);
        assert(s2 =~= seq![s2[0]] + t2);
    }
}

/// The strings of a finite set, in the order of `str`'s comparison.
pub open spec fn sorted_strings(set: Set<Seq<char>>) -> Seq<Seq<char>> {
    choose|s: Seq<Seq<char>>| strictly_sorted(s) && s.to_set() == set
}

/// `strings`, sorted by `str`'s comparison; the strings must differ from
/// each other.
pub fn sort_strings(strings: Vec<String>) -> (r: Vec<String>)
    requires
        strings@.map_values(|s: String| s@).no_duplicates(),
    ensures
        r@.map_values(|s: String| s@) == sorted_strings(
            strings@.map_values(|s: String| s@).to_set(),
        ),
        strictly_sorted(r@.map_values(|s: String| s@)),
        r@.map_values(|s: String| s@).to_set() == strings@.map_values(|s: String| s@).to_set(),
{
    let ghost input = strings@.map_values(|s: String| s@);
    let mut sorted: Vec<String> = Vec::new();
    let mut i: usize = 0;
    while i < strings.len()
        invariant
            i <= strings@.len(),
            input == strings@.map_values(|s: String| s@),
            input.no_duplicates(),
            strictly_sorted(sorted@.map_values(|s: String| s@)),
            sorted@.map_values(|s: String| s@).to_set() == input.take(i as int).to_set(),
        decreases strings@.len() - i,
    {
        let ghost before = sorted@.map_values(|s: String| s@);
        let item = strings[i].clone();
        let ghost x = item@;
        assert(x == input[i as int]);
        assert(!before.contains(x)) by {
            if before.contains(x) {
                let j = choose|j: int| 0 <= j < before.len() && before[j] == x;
                assert(before.to_set().contains(x));
                assert(input.take(i as int).to_set().contains(x));
                let k = choose|k: int| 0 <= k < i && input.take(i as int)[k] == x;
                assert(input[k] == input[i as int]);
            }
        }
        let mut p: usize = 0;
        while p < sorted.len() && str_lt(sorted[p].as_str(), item.as_str())
            invariant
                p <= sorted@.len(),
                before == sorted@.map_values(|s: String| s@),
                x == item@,
                forall|j: int| 0 <= j < p ==> lex_lt(#[trigger] before[j], x),
            decreases sorted@.len() - p,
        {
            p = p + 1;
        }
        assert forall|j: int| p <= j < before.len() implies lex_lt(x, #[trigger] before[j]) by {
            if j > p {
                assert(lex_lt(before[p as int], before[j]));
            }
            lemma_lex_lt_total(x, before[p as int]);
            if !lex_lt(x, before[p as int]) {
                assert(before[p as int] != x);
                assert(lex_lt(before[p as int], x));
            }
            if j > p {
                lemma_lex_lt_transitive(x, before[p as int], before[j]);
            }
        }
        sorted.insert(p, item);
        let ghost after = sorted@.map_values(|s: String| s@);
        assert(after =~= before.insert(p as int, x));
        assert forall|a: int, b: int| 0 <= a < b < after.len() implies lex_lt(
            #[trigger] after[a],
            #[trigger] after[b],
        ) by {
            if a < p && b < p {
            } else if a < p && b == p {
            } else if a < p && b > p {
                assert(after[b] == before[b - 1]);
                assert(lex_lt(before[a], before[b - 1]));
            } else if a == p {
                assert(after[b] == before[b - 1]);
            } else {
                assert(after[a] == before[a - 1]);
                assert(after[b] == before[b - 1]);
            }
        }
        assert(input.take(i + 1) =~= input.take(i as int).push(x));
        assert(after.to_set() =~= before.to_set().insert(x)) by {
            assert forall|y: Seq<char>| after.to_set().contains(y) implies before.to_set().insert(
                y,
            ).contains(y) && before.to_set().insert(x).contains(y) by {
                let j = choose|j: int| 0 <= j < after.len() && after[j] == y;
                if j < p {
                    assert(before[j] == y);
                } else if j > p {
                    assert(before[j - 1] == y);
                }
            }
            assert forall|y: Seq<char>| before.to_set().insert(x).contains(y) implies after.to_set().contains(
                y,
            ) by {
                if y == x {
                    assert(after[p as int] == x);
                } else {
                    let j = choose|j: int| 0 <= j < before.len() && before[j] == y;
                    if j < p {
                        assert(after[j] == y);
                    } else {
                        assert(after[j + 1] == y);
                    }
                }
            }
        }
        proof {
            let t0 = input.take(i as int);
            let t1 = input.take(i + 1);
            assert forall|y: Seq<char>| t1.to_set().contains(y) implies t0.to_set().insert(
                x,
            ).contains(y) by {
                let j = choose|j: int| 0 <= j < t1.len() && #[trigger] t1[j] == y;
                if j < i {
                    assert(t0[j] == y);
                }
            }
            assert forall|y: Seq<char>| t0.to_set().insert(x).contains(y) implies t1.to_set().contains(
                y,
            ) by {
                if y == x {
                    assert(t1[i as int] == x);
                } else {
                    let j = choose|j: int| 0 <= j < t0.len() && #[trigger] t0[j] == y;
                    assert(t1[j] == y);
                }
            }
            assert(t1.to_set() =~= t0.to_set().insert(x));
        }
        i = i + 1;
    }
    let ghost result = sorted@.map_values(|s: String| s@);
    assert(input.take(strings@.len() as int) =~= input);
    proof {
        assert(strictly_sorted(result) && result.to_set() == input.to_set());
        lemma_strictly_sorted_unique(result, sorted_strings(input.to_set()));
    }
    sorted
}

/// The strings of `list` with `separator` between each two.
pub open spec fn joined(list: Seq<Seq<char>>, separator: Seq<char>) -> Seq<char>
    decreases list.len(),
{
    if list.len() == 0 {
        Seq::empty()
    } else if list.len() == 1 {
        list[0]
    } else {
        joined(list.drop_last(), separator) + separator + list.last()
    }
}

/// The strings of `list` with `separator` between each two.
pub fn join(list: &Vec<String>, separator: &str) -> (r: String)
    ensures
        r@ == joined(list@.map_values(|s: String| s@), separator@),
{
    let ghost views = list@.map_values(|s: String| s@);
    let mut r = String::new();
    let mut i: usize = 0;
    while i < list.len()
        invariant
            i <= list@.len(),
            views == list@.map_values(|s: String| s@),
            r@ == joined(views.take(i as int), separator@),
        decreases list@.len() - i,
    {
        assert(views.take(i + 1).drop_last() =~= views.take(i as int));
        if i != 0 {
            r.append(separator);
        } else {
            assert(r@ =~= Seq::<char>::empty());
        }
        r.append(list[i].as_str());
        proof {
            if i == 0 {
                assert(r@ =~= views.take(1)[0]);
            }
        }
        i = i + 1;
    }
    assert(views.take(list@.len() as int) =~= views);
    r
}

/// The digit for `d`, which is below ten.
pub open spec fn digit_char(d: nat) -> char {
    ((48 + d) as u32) as char
}

/// `n` written in decimal, without leading zeros.
pub open spec fn decimal(n: nat) -> Seq<char>
    decreases n,
{
    if n < 10 {
        seq![digit_char(n)]
    } else {
        decimal(n / 10).push(digit_char(n % 10))
    }
}

/// The decimal digit `d`, which is below ten, as a string.
fn digit_string(d: usize) -> (r: String)
    requires
        d < 10,
    ensures
        r@ == seq![digit_char(d as nat)],
{
    match d {
        0 => {
            proof {
                reveal_strlit("0");
            }
            String::from_str("0")
        },
        1 => {
            proof {
                reveal_strlit("1");
            }
            String::from_str("1")
        },
        2 => {
            proof {
                reveal_strlit("2");
            }
            String::from_str("2")
        },
        3 => {
            proof {
                reveal_strlit("3");
            }
            String::from_str("3")
        },
        4 => {
            proof {
                reveal_strlit("4");
            }
            String::from_str("4")
        },
        5 => {
            proof {
                reveal_strlit("5");
            }
            String::from_str("5")
        },
        6 => {
            proof {
                reveal_strlit("6");
            }
            String::from_str("6")
        },
        7 => {
            proof {
                reveal_strlit("7");
            }
            String::from_str("7")
        },
        8 => {
            proof {
                reveal_strlit("8");
            }
            String::from_str("8")
        },
        9 => {
            proof {
                reveal_strlit("9");
            }
            String::from_str("9")
        },
        _ => vstd::pervasive::unreached(),
    }
}

/// `n` written in decimal (see [`decimal`]).
pub(crate) fn usize_to_decimal(n: usize) -> (r: String)
    ensures
        r@ == decimal(n as nat),
    decreases n,
{
    if n < 10 {
        digit_string(n)
    } else {
        let mut r = usize_to_decimal(n / 10);
        let d = digit_string(n % 10);
        r.append(d.as_str());
        r
    }
}

} // verus!

//! Ordering of release tags such as `v1.2.3` by their numeric components.
use vstd::prelude::*;
use crate::text::{chars_of, is_digit};

verus! {

/// The maximal runs of ASCII digits in `s`, in order.
pub open spec fn digit_runs(s: Seq<char>) -> Seq<Seq<char>>
    decreases s.len(),
{
    if s.len() == 0 {
        seq![]
    } else {
        let r = digit_runs(s.drop_last());
        let c = s.last();
        if !is_digit(c) {
            r
        } else if s.len() >= 2 && is_digit(s[s.len() - 2]) {
            r.drop_last().push(r.last().push(c))
        } else {
            r.push(seq![c])
        }
    }
}

pub open spec fn digit_value(c: char) -> nat {
    ((c as u32) - ('0' as u32)) as nat
}

/// The number written in decimal by the digits `d`.
pub open spec fn decimal_value(d: Seq<char>) -> nat
    decreases d.len(),
{
    if d.len() == 0 {
        0
    } else {
        decimal_value(d.drop_last()) * 10 + digit_value(d.last())
    }
}

/// A run of digits read as a `u64`; a value that does not fit counts as 0.
pub open spec fn run_number(d: Seq<char>) -> int {
    if decimal_value(d) <= u64::MAX {
        decimal_value(d) as int
    } else {
        0
    }
}

/// The numbers of all digit runs of `s`.
pub open spec fn all_numbers(s: Seq<char>) -> Seq<int> {
    digit_runs(s).map_values(|d: Seq<char>| run_number(d))
}

/// The numeric key of a tag: the numbers of its first four digit runs.
pub open spec fn version_key_of(s: Seq<char>) -> Seq<int> {
    let n = all_numbers(s);
    if n.len() <= 4 {
        n
    } else {
        n.take(4)
    }
}

/// Lexicographic comparison (-1, 0 or 1); a proper prefix comes first.
pub open spec fn lex_order(a: Seq<int>, b: Seq<int>) -> int
    decreases a.len(),
{
    if a.len() == 0 && b.len() == 0 {
        0
    } else if a.len() == 0 {
        -1
    } else if b.len() == 0 {
        1
    } else if a[0] < b[0] {
        -1
    } else if a[0] > b[0] {
        1
    } else {
        lex_order(a.drop_first(), b.drop_first())
    }
}

pub open spec fn codes(s: Seq<char>) -> Seq<int> {
    s.map_values(|c: char| c as int)
}

/// The order of two tags: by numeric key, then by the text itself.
pub open spec fn version_order(a: Seq<char>, b: Seq<char>) -> int {
    let k = lex_order(version_key_of(a), version_key_of(b));
    if k != 0 {
        k
    } else {
        lex_order(codes(a), codes(b))
    }
}

proof fn lemma_digit_runs_last(s: Seq<char>)
    requires
        s.len() > 0,
        is_digit(s.last()),
    ensures
        digit_runs(s).len() > 0,
{
}

proof fn lemma_decimal_push(d: Seq<char>, c: char)
    ensures
        decimal_value(d.push(c)) == decimal_value(d) * 10 + digit_value(c),
{
    assert(d.push(c).drop_last() == d);
}

pub open spec fn as_ints(v: Seq<u64>) -> Seq<int> {
    v.map_values(|x: u64| x as int)
}

proof fn lemma_accumulate(cur: u64, dv: u64, over: bool, prev: nat, d: nat)
    requires
        dv <= 9,
        d == prev * 10 + dv,
        over <==> prev > u64::MAX,
        !over ==> cur == prev,
    ensures
        (!over && cur <= (u64::MAX - dv) / 10) ==> cur * 10 + dv == d && d <= u64::MAX,
        !(!over && cur <= (u64::MAX - dv) / 10) ==> d > u64::MAX,
{
    if !over && cur <= (u64::MAX - dv) / 10 {
        assert(cur * 10 + dv <= u64::MAX) by (nonlinear_arith)
            requires
                cur <= (u64::MAX - dv) / 10,
                dv <= 9,
        ;
    } else if !over {
        assert(cur * 10 + dv > u64::MAX) by (nonlinear_arith)
            requires
                cur > (u64::MAX - dv) / 10,
                dv <= 9,
        ;
    } else {
        assert(prev * 10 + dv > u64::MAX) by (nonlinear_arith)
            requires
                prev > u64::MAX,
        ;
    }
}

/// The numbers of the first four digit runs of `value`.
pub fn version_key(value: &str) -> (r: Vec<u64>)
    ensures
        as_ints(r@) == version_key_of(value@),
{
    let t = chars_of(value);
    let mut keys: Vec<u64> = Vec::new();
    let mut cur: u64 = 0;
    let mut over = false;
    let mut i: usize = 0;
    while i < t.len()
        invariant
            i <= t@.len(),
            keys@.len() == digit_runs(t@.take(i as int)).len(),
            forall|k: int|
                0 <= k < keys@.len() ==> keys@[k] as int == run_number(
                    #[trigger] digit_runs(t@.take(i as int))[k],
                ),
            i > 0 && is_digit(t@[i - 1]) ==> {
                let d = digit_runs(t@.take(i as int)).last();
                &&& over <==> decimal_value(d) > u64::MAX
                &&& !over ==> cur == decimal_value(d)
            },
        decreases t.len() - i,
    {
        let c = t[i];
        let ghost before = t@.take(i as int);
        let ghost after = t@.take(i + 1);
        proof {
            assert(after.drop_last() == before);
            assert(after.last() == c);
        }
        if '0' <= c && c <= '9' {
            let dv: u64 = ((c as u32) - ('0' as u32)) as u64;
            let extends = i > 0 && '0' <= t[i - 1] && t[i - 1] <= '9';
            let ghost prev_run: Seq<char> = if extends {
                digit_runs(before).last()
            } else {
                seq![]
            };
            proof {
                if extends {
                    assert(before[before.len() - 1] == t@[i - 1]);
                    lemma_digit_runs_last(before);
                    assert(after[after.len() - 2] == t@[i - 1]);
                } else {
                    if i > 0 {
                        assert(after[after.len() - 2] == t@[i - 1]);
                    }
                    assert(seq![c] == prev_run.push(c));
                }
                lemma_decimal_push(prev_run, c);
                assert(prev_run.push(c) == digit_runs(after).last());
            }
            if !extends {
                cur = 0;
                over = false;
            }
            proof {
                lemma_accumulate(cur, dv, over, decimal_value(prev_run), decimal_value(prev_run.push(c)));
            }
            if !over && cur <= (u64::MAX - dv) / 10 {
                cur = cur * 10 + dv;
            } else {
                over = true;
            }
            let v: u64 = if over {
                0
            } else {
                cur
            };
            if extends {
                let last = keys.len() - 1;
                keys.set(last, v);
            } else {
                keys.push(v);
            }
            proof {
                assert forall|k: int| 0 <= k < keys@.len() implies keys@[k] as int == run_number(
                    #[trigger] digit_runs(after)[k],
                ) by {
                    if k < keys@.len() - 1 {
                        assert(digit_runs(after)[k] == digit_runs(before)[k]);
                    }
                }
            }
        } else {
            proof {
                assert(digit_runs(after) == digit_runs(before));
            }
        }
        i = i + 1;
    }
    assert(t@.take(t@.len() as int) == t@);
    let mut r: Vec<u64> = Vec::new();
    let mut j: usize = 0;
    assert(keys@.len() == digit_runs(t@).len());
    while j < keys.len() && j < 4
        invariant
            t@ == value@,
            keys@.len() == digit_runs(t@).len(),
            forall|k: int|
                0 <= k < keys@.len() ==> keys@[k] as int == run_number(
                    #[trigger] digit_runs(t@)[k],
                ),
            j <= keys@.len(),
            j <= 4,
            r@ == keys@.take(j as int),
        decreases 4 - j,
    {
        r.push(keys[j]);
        proof {
            assert(keys@.take(j + 1) == keys@.take(j as int).push(keys@[j as int]));
        }
        j = j + 1;
    }
    assert(j == keys@.len() || j == 4);
    assert(as_ints(r@) =~= version_key_of(value@)) by {
        assert(version_key_of(value@).len() == j);
        assert forall|k: int| 0 <= k < j implies as_ints(r@)[k] == version_key_of(value@)[k] by {
            assert(r@[k] == keys@[k]);
            assert(keys@[k] as int == run_number(digit_runs(t@)[k]));
        }
    }
    r
}

proof fn lemma_lex_step(a: Seq<int>, b: Seq<int>, i: int)
    requires
        0 <= i < a.len(),
        i < b.len(),
        a[i] == b[i],
    ensures
        lex_order(a.skip(i), b.skip(i)) == lex_order(a.skip(i + 1), b.skip(i + 1)),
{
    assert(a.skip(i).drop_first() == a.skip(i + 1));
    assert(b.skip(i).drop_first() == b.skip(i + 1));
}

/// Lexicographic comparison of two number sequences.
pub fn compare_numbers(a: &[u64], b: &[u64]) -> (r: i32)
    ensures
        r == lex_order(as_ints(a@), as_ints(b@)),
{
    let ghost x = as_ints(a@);
    let ghost y = as_ints(b@);
    let mut i: usize = 0;
    assert(x.skip(0) == x && y.skip(0) == y);
    loop
        invariant
            x == as_ints(a@),
            y == as_ints(b@),
            i <= a@.len(),
            i <= b@.len(),
            lex_order(x, y) == lex_order(x.skip(i as int), y.skip(i as int)),
        decreases a@.len() - i,
    {
        if i == a.len() && i == b.len() {
            return 0;
        } else if i == a.len() {
            return -1;
        } else if i == b.len() {
            return 1;
        } else if a[i] < b[i] {
            return -1;
        } else if a[i] > b[i] {
            return 1;
        }
        proof {
            lemma_lex_step(x, y, i as int);
        }
        i = i + 1;
    }
}

/// Lexicographic comparison of two texts by code point.
pub fn compare_text(a: &[char], b: &[char]) -> (r: i32)
    ensures
        r == lex_order(codes(a@), codes(b@)),
{
    let ghost x = codes(a@);
    let ghost y = codes(b@);
    let mut i: usize = 0;
    assert(x.skip(0) == x && y.skip(0) == y);
    loop
        invariant
            x == codes(a@),
            y == codes(b@),
            i <= a@.len(),
            i <= b@.len(),
            lex_order(x, y) == lex_order(x.skip(i as int), y.skip(i as int)),
        decreases a@.len() - i,
    {
        if i == a.len() && i == b.len() {
            return 0;
        } else if i == a.len() {
            return -1;
        } else if i == b.len() {
            return 1;
        } else if a[i] < b[i] {
            return -1;
        } else if a[i] > b[i] {
            return 1;
        }
        proof {
            lemma_lex_step(x, y, i as int);
        }
        i = i + 1;
    }
}

/// Compares two tags by their numeric keys, then by their text: -1, 0 or 1.
pub fn compare_versions(a: &str, b: &str) -> (r: i32)
    ensures
        r == version_order(a@, b@),
{
    let ka = version_key(a);
    let kb = version_key(b);
    let k = compare_numbers(ka.as_slice(), kb.as_slice());
    if k != 0 {
        k
    } else {
        let ta = chars_of(a);
        let tb = chars_of(b);
        compare_text(ta.as_slice(), tb.as_slice())
    }
}

/// Whether moving from `current` to `target` goes back to an older version.
pub fn is_downgrade(current: &str, target: &str) -> (r: bool)
    ensures
        r == (version_order(target@, current@) < 0),
{
    compare_versions(target, current) < 0
}

/// `lex_order` gives -1, 0 or 1, swaps sign with its arguments, and is 0 only on equal sequences.
pub proof fn lemma_lex_order_basics(a: Seq<int>, b: Seq<int>)
    ensures
        lex_order(a, b) == 0 || lex_order(a, b) == 1 || lex_order(a, b) == -1,
        lex_order(a, b) == -lex_order(b, a),
        lex_order(a, b) == 0 <==> a == b,
    decreases a.len(),
{
    if a.len() > 0 && b.len() > 0 {
        lemma_lex_order_basics(a.drop_first(), b.drop_first());
        if a[0] == b[0] && a.drop_first() == b.drop_first() {
            assert(a == seq![a[0]] + a.drop_first());
            assert(b == seq![b[0]] + b.drop_first());
        }
        if a == b {
            assert(a.drop_first() == b.drop_first());
        }
    } else if a.len() == 0 && b.len() == 0 {
        assert(a == b);
    }
}

/// `lex_order` orders transitively.
pub proof fn lemma_lex_order_transitive(a: Seq<int>, b: Seq<int>, c: Seq<int>)
    requires
        lex_order(a, b) < 0,
        lex_order(b, c) < 0,
    ensures
        lex_order(a, c) < 0,
    decreases a.len(),
{
    if a.len() > 0 && b.len() > 0 && c.len() > 0 && a[0] == b[0] && b[0] == c[0] {
        lemma_lex_order_transitive(a.drop_first(), b.drop_first(), c.drop_first());
    }
}

pub proof fn lemma_codes_injective(a: Seq<char>, b: Seq<char>)
    requires
        codes(a) == codes(b),
    ensures
        a == b,
{
    assert(a.len() == codes(a).len());
    assert(b.len() == codes(b).len());
    assert forall|i: int| 0 <= i < a.len() implies a[i] == b[i] by {
        assert(codes(a)[i] == codes(b)[i]);
        assert(codes(a)[i] == a[i] as int);
        assert(codes(b)[i] == b[i] as int);
    }
    assert(a == b);
}

/// The tag order is a strict total order: it is antisymmetric, relates a tag only to itself
/// by 0, and is transitive.
pub proof fn lemma_version_order_total(a: Seq<char>, b: Seq<char>, c: Seq<char>)
    ensures
        version_order(a, b) == -version_order(b, a),
        version_order(a, b) == 0 <==> a == b,
        version_order(a, b) < 0 && version_order(b, c) < 0 ==> version_order(a, c) < 0,
{
    let (ka, kb, kc) = (version_key_of(a), version_key_of(b), version_key_of(c));
    lemma_lex_order_basics(ka, kb);
    lemma_lex_order_basics(kb, kc);
    lemma_lex_order_basics(ka, kc);
    lemma_lex_order_basics(codes(a), codes(b));
    lemma_lex_order_basics(codes(b), codes(c));
    lemma_lex_order_basics(codes(a), codes(c));
    if lex_order(codes(a), codes(b)) == 0 {
        lemma_codes_injective(a, b);
    }
    if version_order(a, b) < 0 && version_order(b, c) < 0 {
        if lex_order(ka, kb) < 0 && lex_order(kb, kc) < 0 {
            lemma_lex_order_transitive(ka, kb, kc);
        } else if lex_order(ka, kb) < 0 {
            assert(kb == kc);
        } else if lex_order(kb, kc) < 0 {
            assert(ka == kb);
        } else {
            assert(ka == kb && kb == kc);
            lemma_lex_order_transitive(codes(a), codes(b), codes(c));
        }
    }
}

/// A move to a tag is a downgrade exactly when the move back is not, unless the tags are equal;
/// no tag is a downgrade of itself.
pub proof fn lemma_downgrade_asymmetric(current: Seq<char>, target: Seq<char>)
    ensures
        !(version_order(current, current) < 0),
        version_order(target, current) < 0 ==> !(version_order(current, target) < 0),
        current != target ==> (version_order(target, current) < 0 <==> !(version_order(
            current,
            target,
        ) < 0)),
{
    lemma_version_order_total(current, current, current);
    lemma_version_order_total(target, current, current);
}

} // verus!

//! Small verified helpers on strings.

use vstd::prelude::*;

verus! {

/// Whether two string slices hold the same text.
pub fn str_equal(a: &str, b: &str) -> (r: bool)
    ensures
        r == (a@ == b@),
{
    a.to_owned() == b.to_owned()
}

/// `a` followed by `b`.
pub fn concat(a: &str, b: &str) -> (r: String)
    ensures
        r@ == a@ + b@,
{
    let mut s = a.to_owned();
    s.append(b);
    s
}

/// Whether `v` holds a string equal to `s`.
pub fn contains_string(v: &Vec<String>, s: &String) -> (r: bool)
    ensures
        r == v.deep_view().contains(s@),
{
    let mut i: usize = 0;
    while i < v.len()
        invariant
            0 <= i <= v@.len(),
            forall|j: int| 0 <= j < i ==> v@[j]@ != s@,
        decreases v@.len() - i,
    {
        if v[i] == *s {
            proof {
                assert(v.deep_view()[i as int] == s@);
            }
            return true;
        }
        i = i + 1;
    }
    proof {
        if v.deep_view().contains(s@) {
            let j = choose|j: int| 0 <= j < v.deep_view().len() && v.deep_view()[j] == s@;
            assert(v@[j]@ == s@);
        }
    }
    false
}

/// Whether `s` begins with `prefix`.
pub open spec fn has_prefix(s: Seq<char>, prefix: Seq<char>) -> bool {
    prefix.len() <= s.len() && s.subrange(0, prefix.len() as int) == prefix
}

/// Whether `s` begins with `prefix`.
pub fn starts_with(s: &str, prefix: &str) -> (r: bool)
    ensures
        r == has_prefix(s@, prefix@),
{
    let n = prefix.unicode_len();
    let m = s.unicode_len();
    if n > m {
        return false;
    }
    let mut i: usize = 0;
    while i < n
        invariant
            n == prefix@.len(),
            m == s@.len(),
            n <= m,
            0 <= i <= n,
            forall|j: int| 0 <= j < i ==> s@[j] == prefix@[j],
        decreases n - i,
    {
        if s.get_char(i) != prefix.get_char(i) {
            proof {
                assert(s@.subrange(0, n as int)[i as int] != prefix@[i as int]);
            }
            return false;
        }
        i = i + 1;
    }
    proof {
        assert(s@.subrange(0, n as int) =~= prefix@);
    }
    true
}


/// The decimal digit character for `d` (meaningful for `d < 10`).
pub open spec fn digit_char(d: nat) -> char {
    (48 + d) as char
}

/// The decimal text of `n`, without leading zeros.
pub open spec fn decimal(n: nat) -> Seq<char>
    decreases n,
{
    if n < 10 {
        seq![digit_char(n)]
    } else {
        decimal(n / 10) + seq![digit_char(n % 10)]
    }
}

/// The decimal text of a signed number: a minus sign before the digits of a
/// negative number.
pub open spec fn signed_decimal(n: int) -> Seq<char> {
    if n < 0 {
        seq!['-'] + decimal((-n) as nat)
    } else {
        decimal(n as nat)
    }
}

fn digit_text(d: u64) -> (r: &'static str)
    requires
        d < 10,
    ensures
        r@ == seq![digit_char(d as nat)],
{
    proof {
        reveal_strlit("0");
        reveal_strlit("1");
        reveal_strlit("2");
        reveal_strlit("3");
        reveal_strlit("4");
        reveal_strlit("5");
        reveal_strlit("6");
        reveal_strlit("7");
        reveal_strlit("8");
        reveal_strlit("9");
    }
    let r = if d == 0 {
        "0"
    } else if d == 1 {
        "1"
    } else if d == 2 {
        "2"
    } else if d == 3 {
        "3"
    } else if d == 4 {
        "4"
    } else if d == 5 {
        "5"
    } else if d == 6 {
        "6"
    } else if d == 7 {
        "7"
    } else if d == 8 {
        "8"
    } else {
        "9"
    };
    assert(r@ =~= seq![digit_char(d as nat)]);
    r
}

/// The decimal text of `n`.
pub fn u64_to_text(n: u64) -> (r: String)
    ensures
        r@ == decimal(n as nat),
    decreases n,
{
    if n < 10 {
        digit_text(n).to_owned()
    } else {
        let mut s = u64_to_text(n / 10);
        s.append(digit_text(n % 10));
        s
    }
}

/// The decimal text of `n`, with a minus sign when it is negative.
pub fn i32_to_text(n: i32) -> (r: String)
    ensures
        r@ == signed_decimal(n as int),
{
    if n < 0 {
        let m: i64 = n as i64;
        let abs: u64 = (0 - m) as u64;
        let mut s = "-".to_owned();
        proof {
            reveal_strlit("-");
        }
        s.append(u64_to_text(abs).as_str());
        s
    } else {
        u64_to_text(n as u64)
    }
}


/// The parts of `s` between its dots, in order (one part when there is no
/// dot; empty parts where dots are adjacent or at an end).
pub open spec fn dot_parts(s: Seq<char>) -> Seq<Seq<char>>
    decreases s.len(),
{
    if s.len() == 0 {
        seq![Seq::empty()]
    } else {
        let p = dot_parts(s.drop_last());
        if s.last() == '.' {
            p.push(Seq::empty())
        } else {
            p.update(p.len() - 1, p.last().push(s.last()))
        }
    }
}

pub proof fn lemma_dot_parts_nonempty(s: Seq<char>)
    ensures
        dot_parts(s).len() >= 1,
    decreases s.len(),
{
    if s.len() > 0 {
        lemma_dot_parts_nonempty(s.drop_last());
    }
}

/// Splits `s` at its dots.
pub fn split_on_dots(s: &str) -> (r: Vec<String>)
    ensures
        r.deep_view() == dot_parts(s@),
{
    let n = s.unicode_len();
    let mut done: Vec<String> = Vec::new();
    let mut start: usize = 0;
    let mut i: usize = 0;
    proof {
        reveal_strlit(".");
        assert(s@.take(0) =~= Seq::<char>::empty());
        assert(done.deep_view().push(s@.subrange(0, 0)) =~= dot_parts(s@.take(0)));
    }
    while i < n
        invariant
            n == s@.len(),
            0 <= start <= i <= n,
            dot_parts(s@.take(i as int)) == done.deep_view().push(s@.subrange(start as int, i as int)),
        decreases n - i,
    {
        proof {
            assert(s@.take(i + 1).drop_last() =~= s@.take(i as int));
            assert(s@.take(i + 1).last() == s@[i as int]);
            lemma_dot_parts_nonempty(s@.take(i as int));
        }
        if s.get_char(i) == '.' {
            let part = s.substring_char(start, i).to_owned();
            let ghost prev = done.deep_view();
            done.push(part);
            proof {
                assert(done.deep_view() =~= prev.push(part@));
                assert(s@.subrange((i + 1) as int, (i + 1) as int) =~= Seq::<char>::empty());
            }
            start = i + 1;
        } else {
            proof {
                assert(s@.subrange(start as int, (i + 1) as int) =~= s@.subrange(
                    start as int,
                    i as int,
                ).push(s@[i as int]));
                let p = dot_parts(s@.take(i as int));
                assert(p.update(p.len() - 1, p.last().push(s@[i as int])) =~= done.deep_view().push(
                    s@.subrange(start as int, (i + 1) as int),
                ));
            }
        }
        i = i + 1;
    }
    let last = s.substring_char(start, n).to_owned();
    let ghost prev = done.deep_view();
    done.push(last);
    proof {
        assert(s@.take(n as int) =~= s@);
        assert(done.deep_view() =~= prev.push(last@));
    }
    done
}

/// Adding text without dots extends the last part.
pub proof fn lemma_dot_parts_extend(s: Seq<char>, t: Seq<char>)
    requires
        !t.contains('.'),
    ensures
        dot_parts(s + t) == {
            let p = dot_parts(s);
            p.update(p.len() - 1, p.last() + t)
        },
    decreases t.len(),
{
    lemma_dot_parts_nonempty(s);
    if t.len() == 0 {
        assert(s + t =~= s);
        let p = dot_parts(s);
        assert(p.update(p.len() - 1, p.last() + t) =~= p);
    } else {
        let t0 = t.drop_last();
        assert(!t0.contains('.')) by {
            if t0.contains('.') {
                let k = choose|k: int| 0 <= k < t0.len() && t0[k] == '.';
                assert(t[k] == '.');
            }
        }
        lemma_dot_parts_extend(s, t0);
        assert((s + t).drop_last() =~= s + t0);
        assert((s + t).last() == t.last());
        assert(t.last() != '.') by {
            assert(t[t.len() - 1] == t.last());
        }
        let p = dot_parts(s);
        let q = dot_parts(s + t0);
        lemma_dot_parts_nonempty(s + t0);
        assert(q == p.update(p.len() - 1, p.last() + t0));
        assert(q.len() == p.len());
        assert(q.last() == p.last() + t0);
        assert((p.last() + t0).push(t.last()) =~= p.last() + t);
        assert(q.update(q.len() - 1, q.last().push(t.last())) =~= p.update(p.len() - 1, p.last() + t));
    }
}

/// Adding a dot starts a new, empty part.
pub proof fn lemma_dot_parts_dot(s: Seq<char>)
    ensures
        dot_parts(s + "."@) == dot_parts(s).push(Seq::empty()),
{
    reveal_strlit(".");
    assert((s + "."@).drop_last() =~= s);
    assert((s + "."@).last() == '.');
}

/// The parts of `a.b.c`, where none of `a`, `b`, `c` holds a dot, are `a`,
/// `b` and `c`.
pub proof fn lemma_dot_parts_three(a: Seq<char>, b: Seq<char>, c: Seq<char>)
    requires
        !a.contains('.'),
        !b.contains('.'),
        !c.contains('.'),
    ensures
        dot_parts(a + "."@ + b + "."@ + c) == seq![a, b, c],
{
    let e = Seq::<char>::empty();
    lemma_dot_parts_extend(e, a);
    assert(e + a =~= a);
    assert(dot_parts(e) == seq![e]);
    assert(seq![e].update(0, e + a) =~= seq![a]);
    lemma_dot_parts_dot(a);
    lemma_dot_parts_extend(a + "."@, b);
    assert(seq![a, e].update(1, e + b) =~= seq![a, b]);
    lemma_dot_parts_dot(a + "."@ + b);
    lemma_dot_parts_extend(a + "."@ + b + "."@, c);
    assert(seq![a, b, e].update(2, e + c) =~= seq![a, b, c]);
}

} // verus!

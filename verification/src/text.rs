use vstd::prelude::*;
use vstd::std_specs::iter::IteratorSpec;
use vstd::string::StrSliceExecFns;
use vstd::string::StringExecFns;

verus! {

/// The text that `str::replace` produces for a non-empty pattern: the
/// occurrences of `pat` found while scanning from the left, none of them
/// overlapping, are each replaced by `to`.
pub open spec fn replaced(s: Seq<char>, pat: Seq<char>, to: Seq<char>) -> Seq<char>
    decreases s.len(),
{
    if pat.len() == 0 || s.len() < pat.len() {
        s
    } else if s.take(pat.len() as int) == pat {
        to + replaced(s.skip(pat.len() as int), pat, to)
    } else {
        seq![s[0]] + replaced(s.drop_first(), pat, to)
    }
}

/// The characters of `s`, in order.
pub fn chars_of(s: &str) -> (v: Vec<char>)
    ensures
        v@ == s@,
{
    let mut v: Vec<char> = Vec::new();
    for c in it: s.chars()
        invariant
            v@ == it.seq().take(it.index() as int),
    {
        v.push(c);
    }
    v
}


/// Whether `pat` occurs in `s` starting at character position `i`.
fn occurs_at(s: &Vec<char>, pat: &Vec<char>, i: usize) -> (b: bool)
    requires
        i + pat@.len() <= s@.len(),
    ensures
        b == (s@.subrange(i as int, i + pat@.len()) == pat@),
{
    let m = pat.len();
    let mut k: usize = 0;
    while k < m
        invariant
            k <= m,
            m == pat@.len(),
            i + m <= s.len(),
            forall|j: int| 0 <= j < k ==> s@[i + j] == pat@[j],
        decreases m - k,
    {
        if s[i + k] != pat[k] {
            assert(s@.subrange(i as int, i + m)[k as int] != pat@[k as int]);
            return false;
        }
        k = k + 1;
    }
    assert(s@.subrange(i as int, i + m) =~= pat@);
    true
}

/// Whether `s` begins with `prefix` (as `str::starts_with` with a string pattern).
pub fn has_prefix(s: &str, prefix: &str) -> (b: bool)
    ensures
        b == prefix@.is_prefix_of(s@),
{
    let sc = chars_of(s);
    let pc = chars_of(prefix);
    if pc.len() > sc.len() {
        return false;
    }
    let b = occurs_at(&sc, &pc, 0);
    assert(sc@.subrange(0, pc@.len() as int) =~= s@.take(prefix@.len() as int));
    b
}

/// Whether `s` ends with `suffix` (as `str::ends_with` with a string pattern).
pub fn has_suffix(s: &str, suffix: &str) -> (b: bool)
    ensures
        b == suffix@.is_suffix_of(s@),
{
    let sc = chars_of(s);
    let tc = chars_of(suffix);
    if tc.len() > sc.len() {
        return false;
    }
    occurs_at(&sc, &tc, sc.len() - tc.len())
}

/// Whether `a` and `b` are the same text.
pub fn same_text(a: &str, b: &str) -> (r: bool)
    ensures
        r == (a@ == b@),
{
    let ac = chars_of(a);
    let bc = chars_of(b);
    if ac.len() != bc.len() {
        return false;
    }
    let r = occurs_at(&ac, &bc, 0);
    assert(ac@.subrange(0, bc@.len() as int) =~= a@);
    r
}

/// One step of `replaced` at position `i` of `s`.
proof fn lemma_replaced_step(s: Seq<char>, pat: Seq<char>, to: Seq<char>, i: int)
    requires
        pat.len() > 0,
        0 <= i,
        i + pat.len() <= s.len(),
    ensures
        s.subrange(i, i + pat.len()) == pat ==> replaced(s.skip(i), pat, to) == to + replaced(
            s.skip(i + pat.len()),
            pat,
            to,
        ),
        s.subrange(i, i + pat.len()) != pat ==> replaced(s.skip(i), pat, to) == seq![s[i]]
            + replaced(s.skip(i + 1), pat, to),
{
    let t = s.skip(i);
    assert(t.take(pat.len() as int) =~= s.subrange(i, i + pat.len()));
    assert(t.skip(pat.len() as int) =~= s.skip(i + pat.len()));
    assert(t.drop_first() =~= s.skip(i + 1));
}

/// `s` with every occurrence of the non-empty `pat` replaced by `to`, as
/// `str::replace` does it.
pub fn replace_all(s: &str, pat: &str, to: &str) -> (res: String)
    requires
        pat@.len() > 0,
    ensures
        res@ == replaced(s@, pat@, to@),
{
    let sc = chars_of(s);
    let pc = chars_of(pat);
    let n = sc.len();
    let m = pc.len();
    let mut res = String::new();
    let mut last: usize = 0;
    let mut i: usize = 0;
    assert(s@.skip(0) =~= s@);
    while m <= n - i
        invariant
            last <= i <= n,
            n == s@.len(),
            m == pat@.len(),
            m > 0,
            sc@ == s@,
            pc@ == pat@,
            res@ + s@.subrange(last as int, i as int) + replaced(s@.skip(i as int), pat@, to@)
                == replaced(s@, pat@, to@),
        decreases n - i,
    {
        proof {
            lemma_replaced_step(s@, pat@, to@, i as int);
        }
        if occurs_at(&sc, &pc, i) {
            let ghost before = res@;
            res.append(s.substring_char(last, i));
            res.append(to);
            assert(res@ + s@.subrange((i + m) as int, (i + m) as int) =~= before + s@.subrange(
                last as int,
                i as int,
            ) + to@);
            i = i + m;
            last = i;
        } else {
            assert(s@.subrange(last as int, i as int) + seq![s@[i as int]] =~= s@.subrange(
                last as int,
                i + 1,
            ));
            i = i + 1;
        }
    }
    assert(replaced(s@.skip(i as int), pat@, to@) == s@.skip(i as int));
    assert(s@.subrange(last as int, i as int) + s@.skip(i as int) =~= s@.subrange(
        last as int,
        n as int,
    ));
    res.append(s.substring_char(last, n));
    res
}


/// `pat` occurs somewhere in `s`.
pub open spec fn occurs_in(pat: Seq<char>, s: Seq<char>) -> bool {
    exists|i: int| 0 <= i && i + pat.len() <= s.len() && #[trigger] s.subrange(i, i + pat.len()) == pat
}

/// Replacing a pattern that does not occur leaves the text as it is.
pub proof fn replaced_absent(s: Seq<char>, pat: Seq<char>, to: Seq<char>)
    requires
        !occurs_in(pat, s),
    ensures
        replaced(s, pat, to) == s,
    decreases s.len(),
{
    if pat.len() == 0 || s.len() < pat.len() {
    } else {
        let zero: int = 0;
        assert(s.subrange(zero, zero + pat.len()) != pat);
        assert(s.take(pat.len() as int) =~= s.subrange(zero, zero + pat.len()));
        let rest = s.drop_first();
        assert forall|i: int| 0 <= i && i + pat.len() <= rest.len() implies #[trigger] rest.subrange(
            i,
            i + pat.len(),
        ) != pat by {
            assert(rest.subrange(i, i + pat.len()) =~= s.subrange(i + 1, i + 1 + pat.len()));
        }
        replaced_absent(rest, pat, to);
        assert(seq![s[0]] + rest =~= s);
    }
}

} // verus!

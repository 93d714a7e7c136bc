//! Character-level text operations used throughout the library.
use vstd::prelude::*;
use vstd::string::{StrSliceExecFns, StringExecFns};

verus! {

/// The text that `s` becomes when every occurrence of `pat` is replaced by `rep`,
/// scanning from the left and never letting two replaced occurrences overlap.
pub open spec fn replaced(s: Seq<char>, pat: Seq<char>, rep: Seq<char>) -> Seq<char>
    decreases s.len(),
{
    if pat.len() == 0 || s.len() < pat.len() {
        s
    } else if s.take(pat.len() as int) == pat {
        rep + replaced(s.skip(pat.len() as int), pat, rep)
    } else {
        seq![s[0]] + replaced(s.drop_first(), pat, rep)
    }
}

/// `s` with every occurrence of the single character `c` replaced by `rep`.
pub open spec fn subst(s: Seq<char>, c: char, rep: Seq<char>) -> Seq<char>
    decreases s.len(),
{
    if s.len() == 0 {
        s
    } else if s[0] == c {
        rep + subst(s.drop_first(), c, rep)
    } else {
        seq![s[0]] + subst(s.drop_first(), c, rep)
    }
}

/// Whether `pat` occurs somewhere in `s` as a contiguous run.
pub open spec fn occurs(s: Seq<char>, pat: Seq<char>) -> bool
    decreases s.len(),
{
    if pat.len() == 0 {
        true
    } else if s.len() < pat.len() {
        false
    } else {
        s.take(pat.len() as int) == pat || occurs(s.drop_first(), pat)
    }
}

/// Whether `s` begins with `q`.
pub open spec fn starts(s: Seq<char>, q: Seq<char>) -> bool {
    q.len() <= s.len() && s.take(q.len() as int) == q
}

/// Whether no character of `s` is `c`.
pub open spec fn avoids(s: Seq<char>, c: char) -> bool {
    forall|k: int| 0 <= k < s.len() ==> s[k] != c
}

/// Replacing a pattern that does not occur leaves the text unchanged.
pub proof fn lemma_replaced_absent(s: Seq<char>, pat: Seq<char>, rep: Seq<char>)
    requires
        pat.len() > 0,
        !occurs(s, pat),
    ensures
        replaced(s, pat, rep) == s,
    decreases s.len(),
{
    if s.len() >= pat.len() {
        lemma_replaced_absent(s.drop_first(), pat, rep);
        assert(seq![s[0]] + s.drop_first() =~= s);
    }
}

/// When the text does not start with the pattern's first character,
/// replacement passes over that character.
pub proof fn lemma_replaced_step(s: Seq<char>, pat: Seq<char>, rep: Seq<char>)
    requires
        pat.len() > 0,
        s.len() > 0,
        s[0] != pat[0],
    ensures
        replaced(s, pat, rep) == seq![s[0]] + replaced(s.drop_first(), pat, rep),
{
    if s.len() < pat.len() {
        lemma_replaced_absent(s.drop_first(), pat, rep);
        assert(seq![s[0]] + s.drop_first() =~= s);
    } else {
        assert(s.take(pat.len() as int)[0] != pat[0]);
    }
}

/// A prefix none of whose characters starts the pattern passes through replacement unchanged.
pub proof fn lemma_replaced_prefix(a: Seq<char>, b: Seq<char>, pat: Seq<char>, rep: Seq<char>)
    requires
        pat.len() > 0,
        avoids(a, pat[0]),
    ensures
        replaced(a + b, pat, rep) == a + replaced(b, pat, rep),
    decreases a.len(),
{
    if a.len() > 0 {
        lemma_replaced_step(a + b, pat, rep);
        assert((a + b).drop_first() =~= a.drop_first() + b);
        lemma_replaced_prefix(a.drop_first(), b, pat, rep);
        assert(seq![a[0]] + (a.drop_first() + replaced(b, pat, rep)) =~= a + replaced(b, pat, rep));
    } else {
        assert(a + b =~= b);
        assert(a + replaced(b, pat, rep) =~= replaced(b, pat, rep));
    }
}

/// Replacing a single character is substituting it.
pub proof fn lemma_replaced_single(s: Seq<char>, c: char, rep: Seq<char>)
    ensures
        replaced(s, seq![c], rep) == subst(s, c, rep),
    decreases s.len(),
{
    if s.len() > 0 {
        lemma_replaced_single(s.drop_first(), c, rep);
        assert(s.take(1) =~= seq![s[0]]);
        assert(s.skip(1) =~= s.drop_first());
        if s[0] != c {
            assert(s.take(1)[0] != seq![c][0]);
        }
    }
}

/// Substituting a character distributes over concatenation.
pub proof fn lemma_subst_concat(a: Seq<char>, b: Seq<char>, c: char, rep: Seq<char>)
    ensures
        subst(a + b, c, rep) == subst(a, c, rep) + subst(b, c, rep),
    decreases a.len(),
{
    if a.len() == 0 {
        assert(a + b =~= b);
        assert(subst(a, c, rep) + subst(b, c, rep) =~= subst(b, c, rep));
    } else {
        assert((a + b).drop_first() =~= a.drop_first() + b);
        lemma_subst_concat(a.drop_first(), b, c, rep);
        if a[0] == c {
            assert(rep + (subst(a.drop_first(), c, rep) + subst(b, c, rep)) =~= (rep + subst(a.drop_first(), c, rep)) + subst(b, c, rep));
        } else {
            assert(seq![a[0]] + (subst(a.drop_first(), c, rep) + subst(b, c, rep)) =~= (seq![a[0]] + subst(a.drop_first(), c, rep)) + subst(b, c, rep));
        }
    }
}

/// Halving a doubled character undoes its doubling.
pub proof fn lemma_undouble(t: Seq<char>, c: char)
    ensures
        replaced(subst(t, c, seq![c, c]), seq![c, c], seq![c]) == t,
    decreases t.len(),
{
    let d = seq![c, c];
    let e = subst(t, c, d);
    if t.len() > 0 {
        lemma_undouble(t.drop_first(), c);
        let e1 = subst(t.drop_first(), c, d);
        if t[0] == c {
            assert(e.take(2) =~= d);
            assert(e.skip(2) =~= e1);
            assert(seq![c] + t.drop_first() =~= t);
        } else {
            lemma_replaced_step(e, d, seq![c]);
            assert(e.drop_first() =~= e1);
            assert(seq![t[0]] + t.drop_first() =~= t);
        }
    }
}

/// If a text begins with `q` after substitution, and `q` avoids both the substituted
/// character and the first character of its replacement, the text began with `q` before.
pub proof fn lemma_subst_starts(t: Seq<char>, q: Seq<char>, c: char, rep: Seq<char>)
    requires
        rep.len() > 0,
        starts(subst(t, c, rep), q),
        forall|k: int| 0 <= k < q.len() ==> #[trigger] q[k] != c && q[k] != rep[0],
    ensures
        starts(t, q),
    decreases q.len(),
{
    if q.len() > 0 {
        let e = subst(t, c, rep);
        assert(e.take(q.len() as int)[0] == q[0]);
        if t.len() == 0 {
            assert(false);
        }
        if t[0] == c {
            assert(e[0] == rep[0]);
            assert(false);
        }
        let t1 = t.drop_first();
        let q1 = q.drop_first();
        assert(e.drop_first() =~= subst(t1, c, rep));
        assert(subst(t1, c, rep).take(q1.len() as int) =~= e.take(q.len() as int).drop_first());
        assert(forall|k: int| 0 <= k < q1.len() ==> q1[k] == q[k + 1]);
        lemma_subst_starts(t1, q1, c, rep);
        assert(e[0] == t[0]);
        assert(t.take(q.len() as int) =~= seq![t[0]] + t1.take(q1.len() as int));
        assert(q =~= seq![q[0]] + q1);
    } else {
        assert(t.take(0) =~= q);
    }
}

/// A prefix whose characters lie outside a non-empty pattern cannot be where the pattern occurs.
pub proof fn lemma_occurs_after_foreign(a: Seq<char>, b: Seq<char>, pat: Seq<char>)
    requires
        pat.len() > 0,
        forall|k: int| 0 <= k < a.len() ==> !pat.contains(#[trigger] a[k]),
        occurs(a + b, pat),
    ensures
        occurs(b, pat),
    decreases a.len(),
{
    if a.len() > 0 {
        if (a + b).take(pat.len() as int) == pat {
            assert((a + b).take(pat.len() as int)[0] == a[0]);
            assert(pat.contains(pat[0]));
            assert(false);
        }
        assert((a + b).drop_first() =~= a.drop_first() + b);
        assert(forall|k: int| 0 <= k < a.drop_first().len() ==> a.drop_first()[k] == a[k + 1]);
        lemma_occurs_after_foreign(a.drop_first(), b, pat);
    } else {
        assert(a + b =~= b);
    }
}

/// Substituting a character that the pattern lacks, by characters the pattern lacks,
/// creates no new occurrence of the pattern.
pub proof fn lemma_subst_keeps_absent(s: Seq<char>, pat: Seq<char>, c: char, rep: Seq<char>)
    requires
        pat.len() > 0,
        rep.len() > 0,
        !pat.contains(c),
        forall|k: int| 0 <= k < rep.len() ==> !pat.contains(#[trigger] rep[k]),
        !occurs(s, pat),
    ensures
        !occurs(subst(s, c, rep), pat),
    decreases s.len(),
{
    let e = subst(s, c, rep);
    let p = pat.len() as int;
    if s.len() > 0 {
        let s1 = s.drop_first();
        let e1 = subst(s1, c, rep);
        if s.len() >= p {
            assert(!occurs(s1, pat));
        } else {
            lemma_short_no_occurs(s1, pat);
        }
        lemma_subst_keeps_absent(s1, pat, c, rep);
        if s[0] == c {
            if occurs(e, pat) {
                lemma_occurs_after_foreign(rep, e1, pat);
            }
        } else {
            if occurs(e, pat) {
                if e.len() >= p && e.take(p) == pat {
                    let q = pat.drop_first();
                    assert(e.drop_first() =~= e1);
                    assert(e1.take(q.len() as int) =~= e.take(p).drop_first());
                    assert forall|k: int| 0 <= k < q.len() implies #[trigger] q[k] != c && q[k] != rep[0] by {
                        assert(q[k] == pat[k + 1]);
                        assert(pat.contains(pat[k + 1]));
                        assert(!pat.contains(rep[0]));
                    }
                    lemma_subst_starts(s1, q, c, rep);
                    assert(s.take(p) =~= seq![s[0]] + s1.take(q.len() as int));
                    assert(e[0] == s[0]);
                    assert(pat =~= seq![pat[0]] + q);
                    assert(s.len() >= p);
                    assert(false);
                } else {
                    assert(e.drop_first() =~= e1);
                }
            }
        }
    }
}

/// A text shorter than the pattern does not contain it.
pub proof fn lemma_short_no_occurs(s: Seq<char>, pat: Seq<char>)
    requires
        pat.len() > 0,
        s.len() < pat.len(),
    ensures
        !occurs(s, pat),
{
}

/// A text without `p` has no `p` followed by anything.
pub proof fn lemma_no_occurs_extend(s: Seq<char>, p: Seq<char>, q: Seq<char>)
    requires
        p.len() > 0,
        !occurs(s, p),
    ensures
        !occurs(s, p + q),
    decreases s.len(),
{
    if s.len() >= (p + q).len() {
        assert(s.take((p + q).len() as int).take(p.len() as int) =~= s.take(p.len() as int));
        assert((p + q).take(p.len() as int) =~= p);
        lemma_no_occurs_extend(s.drop_first(), p, q);
    }
}

/// Substituting a character that does not occur changes nothing.
pub proof fn lemma_subst_avoiding(s: Seq<char>, c: char, rep: Seq<char>)
    requires
        avoids(s, c),
    ensures
        subst(s, c, rep) == s,
    decreases s.len(),
{
    if s.len() > 0 {
        assert(avoids(s.drop_first(), c)) by {
            assert(forall|k: int| 0 <= k < s.drop_first().len() ==> s.drop_first()[k] == s[k + 1]);
        }
        lemma_subst_avoiding(s.drop_first(), c, rep);
        assert(seq![s[0]] + s.drop_first() =~= s);
    }
}

/// Whether two texts are the same.
pub fn str_equal(a: &str, b: &str) -> (r: bool)
    ensures
        r == (a@ == b@),
{
    a.to_owned() == b.to_owned()
}

/// The characters of a string slice, in order.
pub fn chars_of(s: &str) -> (r: Vec<char>)
    ensures
        r@ == s@,
{
    let mut out: Vec<char> = Vec::new();
    for c in it: s.chars()
        invariant
            out@ == it.seq().take(it.index() as int),
    {
        out.push(c);
    }
    out
}


/// Whether `pat` occurs in `s` starting at position `at`.
fn occurs_at(s: &Vec<char>, at: usize, pat: &Vec<char>) -> (r: bool)
    requires
        at + pat@.len() <= s@.len(),
    ensures
        r == (s@.subrange(at as int, at + pat@.len()) == pat@),
{
    let m = pat.len();
    let mut k: usize = 0;
    while k < m
        invariant
            k <= m,
            m == pat@.len(),
            at + m <= s@.len(),
            s@.len() == s.len(),
            forall|j: int| 0 <= j < k ==> s@[at + j] == pat@[j],
        decreases m - k,
    {
        if s[at + k] != pat[k] {
            assert(s@.subrange(at as int, at + m)[k as int] != pat@[k as int]);
            return false;
        }
        k = k + 1;
    }
    assert(s@.subrange(at as int, at + m) =~= pat@);
    true
}

/// Replaces every non-overlapping occurrence of `pat` in `s`, from the left, by `rep`
/// (what `str::replace` does for a non-empty pattern).
pub fn replace_all(s: &str, pat: &str, rep: &str) -> (r: String)
    requires
        pat@.len() > 0,
    ensures
        r@ == replaced(s@, pat@, rep@),
{
    let sv = chars_of(s);
    let pv = chars_of(pat);
    let n = sv.len();
    let m = pv.len();
    let mut out = String::new();
    let mut i: usize = 0;
    assert(sv@.skip(0) =~= sv@);
    while i < n
        invariant
            i <= n,
            n == sv@.len(),
            m == pv@.len(),
            m > 0,
            sv@ == s@,
            pv@ == pat@,
            out@ + replaced(sv@.skip(i as int), pv@, rep@) == replaced(sv@, pv@, rep@),
        decreases n - i,
    {
        let ghost rest = sv@.skip(i as int);
        let ghost before = out@;
        if m <= n - i && occurs_at(&sv, i, &pv) {
            assert(rest.take(m as int) =~= sv@.subrange(i as int, i + m));
            assert(rest.skip(m as int) =~= sv@.skip(i + m));
            out.append(rep);
            i = i + m;
            assert(out@ + replaced(sv@.skip(i as int), pv@, rep@) =~= before + (rep@ + replaced(rest.skip(m as int), pv@, rep@)));
        } else {
            if m <= n - i {
                assert(rest.take(m as int) =~= sv@.subrange(i as int, i + m));
            }
            assert(rest.drop_first() =~= sv@.skip(i + 1));
            assert(rest =~= seq![sv@[i as int]] + sv@.skip(i + 1));
            let one = s.substring_char(i, i + 1);
            assert(one@ =~= seq![sv@[i as int]]);
            out.append(one);
            i = i + 1;
        }
    }
    assert(sv@.skip(n as int) =~= Seq::<char>::empty());
    assert(out@ + Seq::<char>::empty() =~= out@);
    out
}

/// Appends `c` to `out`, taking it from `alphabet`, which holds it.
pub fn push_char_from(out: &mut String, alphabet: &str, c: char)
    requires
        alphabet@.contains(c),
    ensures
        final(out)@ == old(out)@.push(c),
{
    let v = chars_of(alphabet);
    let mut k: usize = 0;
    while k < v.len()
        invariant
            k <= v@.len(),
            v@ == alphabet@,
            alphabet@.contains(c),
            out@ == old(out)@,
            forall|j: int| 0 <= j < k ==> v@[j] != c,
        decreases v@.len() - k,
    {
        if v[k] == c {
            let one = alphabet.substring_char(k, k + 1);
            assert(one@ =~= seq![c]);
            out.append(one);
            assert(out@ =~= old(out)@.push(c));
            return;
        }
        k = k + 1;
    }
    assert(false);
}

} // verus!

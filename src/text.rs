use vstd::prelude::*;

verus! {

/// The characters of `s`, in order.
pub fn chars_of(s: &str) -> (r: Vec<char>)
    ensures
        r@ == s@,
{
    let mut r: Vec<char> = Vec::new();
    for c in it: s.chars()
        invariant
            it.seq() == s@,
            r@ == it.seq().take(it.index() as int),
    {
        r.push(c);
    }
    assert(r@ =~= s@);
    r
}

/// Relies on `String`'s `FromIterator<char>`: the string holds exactly the
/// given characters, in order.
#[verifier::external_body]
pub(crate) fn string_of(v: &Vec<char>) -> (r: String)
    ensures
        r@ == v@,
{
    v.iter().collect()
}

/// Whether two character sequences are equal.
pub fn same_chars(a: &Vec<char>, b: &Vec<char>) -> (r: bool)
    ensures
        r == (a@ == b@),
{
    if a.len() != b.len() {
        return false;
    }
    let mut i: usize = 0;
    while i < a.len()
        invariant
            a.len() == b.len(),
            i <= a.len(),
            forall|k: int| 0 <= k < i ==> a@[k] == b@[k],
        decreases a.len() - i,
    {
        if a[i] != b[i] {
            return false;
        }
        i = i + 1;
    }
    assert(a@ =~= b@);
    true
}

/// The characters of `v` from `from` up to, not including, `to`.
pub fn slice_of(v: &Vec<char>, from: usize, to: usize) -> (r: Vec<char>)
    requires
        from <= to <= v.len(),
    ensures
        r@ == v@.subrange(from as int, to as int),
{
    let mut r: Vec<char> = Vec::new();
    let mut i: usize = from;
    while i < to
        invariant
            from <= i <= to <= v.len(),
            r@ == v@.subrange(from as int, i as int),
        decreases to - i,
    {
        r.push(v[i]);
        i = i + 1;
        assert(r@ =~= v@.subrange(from as int, i as int));
    }
    r
}

/// Whether `c` is a decimal digit.
pub open spec fn is_digit(c: char) -> bool {
    '0' <= c <= '9'
}

/// Whether `pat` occurs in `s` starting at position `i`.
pub open spec fn occurs_at(s: Seq<char>, i: int, pat: Seq<char>) -> bool {
    0 <= i && i + pat.len() <= s.len() && s.subrange(i, i + pat.len()) == pat
}

/// Whether `pat` occurs anywhere in `s`.
pub open spec fn contains(s: Seq<char>, pat: Seq<char>) -> bool {
    exists|i: int| occurs_at(s, i, pat)
}

/// Whether the character `c` occurs in `s`.
pub open spec fn has_char(s: Seq<char>, c: char) -> bool {
    exists|i: int| 0 <= i < s.len() && s[i] == c
}

/// Whether `pat` occurs in `v` starting at position `i`.
pub fn occurs_at_exec(v: &Vec<char>, i: usize, pat: &Vec<char>) -> (r: bool)
    requires
        i <= v.len(),
    ensures
        r == occurs_at(v@, i as int, pat@),
{
    if pat.len() > v.len() - i {
        return false;
    }
    let mut k: usize = 0;
    while k < pat.len()
        invariant
            i + pat.len() <= v.len(),
            k <= pat.len(),
            forall|j: int| 0 <= j < k ==> v@[i + j] == pat@[j],
        decreases pat.len() - k,
    {
        if v[i + k] != pat[k] {
            return false;
        }
        k = k + 1;
    }
    assert(v@.subrange(i as int, i + pat.len()) =~= pat@);
    true
}

/// Every occurrence of `pat` in `s` replaced by `rep`, scanning from the
/// left; an occurrence is not searched for inside a replaced one. An empty
/// pattern leaves `s` as it is.
pub open spec fn replace_all(s: Seq<char>, pat: Seq<char>, rep: Seq<char>) -> Seq<char>
    decreases s.len(),
{
    if pat.len() == 0 || s.len() < pat.len() {
        s
    } else if s.subrange(0, pat.len() as int) == pat {
        rep + replace_all(s.subrange(pat.len() as int, s.len() as int), pat, rep)
    } else {
        seq![s[0]] + replace_all(s.subrange(1, s.len() as int), pat, rep)
    }
}

/// `replace_all` on the characters of a vector.
pub fn replace_all_exec(s: &Vec<char>, pat: &Vec<char>, rep: &Vec<char>) -> (r: Vec<char>)
    requires
        pat.len() > 0,
    ensures
        r@ == replace_all(s@, pat@, rep@),
{
    let mut out: Vec<char> = Vec::new();
    let mut i: usize = 0;
    assert(s@.subrange(0, s.len() as int) =~= s@);
    assert(out@ + replace_all(s@, pat@, rep@) =~= replace_all(s@, pat@, rep@));
    while i < s.len()
        invariant
            pat.len() > 0,
            i <= s.len(),
            replace_all(s@, pat@, rep@) == out@ + replace_all(
                s@.subrange(i as int, s.len() as int),
                pat@,
                rep@,
            ),
        decreases s.len() - i,
    {
        let ghost rest = s@.subrange(i as int, s.len() as int);
        if occurs_at_exec(s, i, pat) {
            assert(rest.subrange(0, pat.len() as int) =~= s@.subrange(i as int, i + pat.len()));
            assert(rest.subrange(pat.len() as int, rest.len() as int) =~= s@.subrange(
                i + pat.len(),
                s.len() as int,
            ));
            let ghost before = out@;
            let mut k: usize = 0;
            while k < rep.len()
                invariant
                    k <= rep.len(),
                    out@ == before + rep@.take(k as int),
                decreases rep.len() - k,
            {
                out.push(rep[k]);
                k = k + 1;
                assert(out@ =~= before + rep@.take(k as int));
            }
            assert(rep@.take(rep.len() as int) =~= rep@);
            assert(out@ + replace_all(s@.subrange(i + pat.len(), s.len() as int), pat@, rep@)
                =~= before + replace_all(rest, pat@, rep@));
            i = i + pat.len();
        } else {
            proof {
                if rest.len() >= pat.len() {
                    assert(rest.subrange(0, pat.len() as int) =~= s@.subrange(
                        i as int,
                        i + pat.len(),
                    ));
                }
                assert(rest.subrange(1, rest.len() as int) =~= s@.subrange(
                    i + 1,
                    s.len() as int,
                ));
            }
            let ghost before = out@;
            out.push(s[i]);
            proof {
                if rest.len() < pat.len() {
                    // nothing in what is left can match: it is copied as it stands
                    let tail = s@.subrange(i + 1, s.len() as int);
                    assert(replace_all(tail, pat@, rep@) == tail);
                    assert(rest =~= seq![s@[i as int]] + tail);
                }
            }
            assert(out@ + replace_all(s@.subrange(i + 1, s.len() as int), pat@, rep@)
                =~= before + replace_all(rest, pat@, rep@));
            i = i + 1;
        }
    }
    assert(s@.subrange(s.len() as int, s.len() as int) =~= Seq::<char>::empty());
    assert(out@ + Seq::<char>::empty() =~= out@);
    out
}

/// Where `pat` does not occur in `s`, replacing it changes nothing.
pub proof fn lemma_replace_absent(s: Seq<char>, pat: Seq<char>, rep: Seq<char>)
    requires
        !contains(s, pat),
    ensures
        replace_all(s, pat, rep) == s,
    decreases s.len(),
{
    if pat.len() == 0 || s.len() < pat.len() {
    } else {
        assert(!occurs_at(s, 0, pat));
        let tail = s.subrange(1, s.len() as int);
        assert forall|j: int| !occurs_at(tail, j, pat) by {
            if occurs_at(tail, j, pat) {
                assert(s.subrange(j + 1, j + 1 + pat.len()) =~= tail.subrange(j, j + pat.len()));
                assert(occurs_at(s, j + 1, pat));
            }
        }
        lemma_replace_absent(tail, pat, rep);
        assert(seq![s[0]] + tail =~= s);
    }
}

/// Replacing a pattern keeps a prefix of `s` in which no occurrence of the
/// pattern begins.
pub proof fn lemma_replace_keeps_prefix(s: Seq<char>, pat: Seq<char>, rep: Seq<char>, k: int)
    requires
        pat.len() > 0,
        0 <= k <= s.len(),
        forall|j: int| 0 <= j < k ==> !occurs_at(s, j, pat),
    ensures
        replace_all(s, pat, rep).len() >= k,
        replace_all(s, pat, rep).subrange(0, k) == s.subrange(0, k),
    decreases k,
{
    if k == 0 {
        assert(replace_all(s, pat, rep).subrange(0, 0) =~= s.subrange(0, 0));
    } else if s.len() < pat.len() {
    } else {
        assert(!occurs_at(s, 0, pat));
        let tail = s.subrange(1, s.len() as int);
        assert forall|j: int| 0 <= j < k - 1 implies !occurs_at(tail, j, pat) by {
            if occurs_at(tail, j, pat) {
                assert(s.subrange(j + 1, j + 1 + pat.len()) =~= tail.subrange(j, j + pat.len()));
                assert(occurs_at(s, j + 1, pat));
            }
        }
        lemma_replace_keeps_prefix(tail, pat, rep, k - 1);
        let r = replace_all(s, pat, rep);
        assert(r == seq![s[0]] + replace_all(tail, pat, rep));
        assert(r.subrange(0, k) =~= seq![s[0]] + replace_all(tail, pat, rep).subrange(0, k - 1));
        assert(s.subrange(0, k) =~= seq![s[0]] + tail.subrange(0, k - 1));
    }
}

/// Where every `[` of `s` begins `pat` or `other`, and `rep` holds no `[`,
/// every `[` left after replacing `pat` begins `other`.
pub proof fn lemma_replace_leaves_other(
    s: Seq<char>,
    pat: Seq<char>,
    rep: Seq<char>,
    other: Seq<char>,
)
    requires
        pat.len() > 0,
        pat[0] == '[',
        other.len() > 0,
        forall|k: int| 1 <= k < other.len() ==> other[k] != '[',
        !has_char(rep, '['),
        forall|i: int|
            0 <= i < s.len() && s[i] == '[' ==> occurs_at(s, i, pat) || occurs_at(s, i, other),
    ensures
        forall|i: int|
            0 <= i < replace_all(s, pat, rep).len() && replace_all(s, pat, rep)[i] == '['
                ==> occurs_at(replace_all(s, pat, rep), i, other),
    decreases s.len(),
{
    let r = replace_all(s, pat, rep);
    let pl = pat.len() as int;
    let ol = other.len() as int;
    if s.len() < pat.len() {
    } else if s.subrange(0, pl) == pat {
        let rest = s.subrange(pl, s.len() as int);
        assert forall|i: int|
            0 <= i < rest.len() && rest[i] == '[' implies occurs_at(rest, i, pat) || occurs_at(
                rest,
                i,
                other,
            ) by {
            assert(rest[i] == s[i + pl]);
            if occurs_at(s, i + pl, pat) {
                assert(rest.subrange(i, i + pl) =~= s.subrange(i + pl, i + pl + pl));
            } else {
                assert(rest.subrange(i, i + ol) =~= s.subrange(i + pl, i + pl + ol));
            }
        }
        lemma_replace_leaves_other(rest, pat, rep, other);
        let rr = replace_all(rest, pat, rep);
        let rl = rep.len() as int;
        assert(r == rep + rr);
        assert forall|i: int| 0 <= i < r.len() && r[i] == '[' implies occurs_at(r, i, other) by {
            if i < rl {
                assert(rep[i] == '[');
            } else {
                assert(rr[i - rl] == '[');
                assert(occurs_at(rr, i - rl, other));
                assert(r.subrange(i, i + ol) =~= rr.subrange(i - rl, i - rl + ol));
            }
        }
    } else {
        let tail = s.subrange(1, s.len() as int);
        assert forall|i: int|
            0 <= i < tail.len() && tail[i] == '[' implies occurs_at(tail, i, pat) || occurs_at(
                tail,
                i,
                other,
            ) by {
            assert(tail[i] == s[i + 1]);
            if occurs_at(s, i + 1, pat) {
                assert(tail.subrange(i, i + pl) =~= s.subrange(i + 1, i + 1 + pl));
            } else {
                assert(tail.subrange(i, i + ol) =~= s.subrange(i + 1, i + 1 + ol));
            }
        }
        lemma_replace_leaves_other(tail, pat, rep, other);
        let rr = replace_all(tail, pat, rep);
        assert(r == seq![s[0]] + rr);
        assert forall|i: int| 0 <= i < r.len() && r[i] == '[' implies occurs_at(r, i, other) by {
            if i == 0 {
                assert(!occurs_at(s, 0, pat));
                assert(occurs_at(s, 0, other));
                assert forall|j: int| 0 <= j < ol - 1 implies !occurs_at(tail, j, pat) by {
                    assert(tail[j] == s.subrange(0, ol)[j + 1]);
                    if occurs_at(tail, j, pat) {
                        assert(tail.subrange(j, j + pl)[0] == tail[j]);
                    }
                }
                lemma_replace_keeps_prefix(tail, pat, rep, ol - 1);
                assert(r.subrange(0, ol) =~= seq![s[0]] + rr.subrange(0, ol - 1));
                assert(s.subrange(0, ol) =~= seq![s[0]] + tail.subrange(0, ol - 1));
            } else {
                assert(rr[i - 1] == '[');
                assert(occurs_at(rr, i - 1, other));
                assert(r.subrange(i, i + ol) =~= rr.subrange(i - 1, i - 1 + ol));
            }
        }
    }
}

/// Where every `[` of `s` begins `pat`, and `rep` holds no `[`, no `[` is
/// left after replacing `pat`.
pub proof fn lemma_replace_clears_brackets(s: Seq<char>, pat: Seq<char>, rep: Seq<char>)
    requires
        pat.len() > 0,
        pat[0] == '[',
        !has_char(rep, '['),
        forall|i: int| 0 <= i < s.len() && s[i] == '[' ==> occurs_at(s, i, pat),
    ensures
        !has_char(replace_all(s, pat, rep), '['),
    decreases s.len(),
{
    let r = replace_all(s, pat, rep);
    let pl = pat.len() as int;
    if s.len() < pat.len() {
    } else if s.subrange(0, pl) == pat {
        let rest = s.subrange(pl, s.len() as int);
        assert forall|i: int| 0 <= i < rest.len() && rest[i] == '[' implies occurs_at(
            rest,
            i,
            pat,
        ) by {
            assert(rest[i] == s[i + pl]);
            assert(rest.subrange(i, i + pl) =~= s.subrange(i + pl, i + pl + pl));
        }
        lemma_replace_clears_brackets(rest, pat, rep);
        let rr = replace_all(rest, pat, rep);
        let rl = rep.len() as int;
        assert(r == rep + rr);
        assert forall|i: int| 0 <= i < r.len() implies r[i] != '[' by {
            if i < rl {
                assert(r[i] == rep[i]);
            } else {
                assert(r[i] == rr[i - rl]);
            }
        }
    } else {
        let tail = s.subrange(1, s.len() as int);
        assert forall|i: int| 0 <= i < tail.len() && tail[i] == '[' implies occurs_at(
            tail,
            i,
            pat,
        ) by {
            assert(tail[i] == s[i + 1]);
            assert(tail.subrange(i, i + pl) =~= s.subrange(i + 1, i + 1 + pl));
        }
        lemma_replace_clears_brackets(tail, pat, rep);
        let rr = replace_all(tail, pat, rep);
        assert(r == seq![s[0]] + rr);
        assert(s[0] != '[');
        assert forall|i: int| 0 <= i < r.len() implies r[i] != '[' by {
            if i > 0 {
                assert(r[i] == rr[i - 1]);
            }
        }
    }
}

/// The position of the first line break at or after `from`, or the length
/// of `s` where there is none.
pub open spec fn line_end(s: Seq<char>, from: int) -> int
    decreases s.len() - from,
{
    if from >= s.len() {
        s.len() as int
    } else if s[from] == '\n' {
        from
    } else {
        line_end(s, from + 1)
    }
}

/// The text before the first line break.
pub open spec fn first_line(s: Seq<char>) -> Seq<char> {
    s.subrange(0, line_end(s, 0))
}

/// The text between the first and the second line break, or up to the end;
/// empty where `s` has no line break.
pub open spec fn second_line(s: Seq<char>) -> Seq<char> {
    let e = line_end(s, 0);
    if e >= s.len() {
        Seq::empty()
    } else {
        s.subrange(e + 1, line_end(s, e + 1))
    }
}

pub proof fn lemma_line_end_bounds(s: Seq<char>, from: int)
    requires
        0 <= from,
    ensures
        from <= s.len() ==> from <= line_end(s, from) <= s.len(),
        forall|k: int| from <= k < line_end(s, from) ==> s[k] != '\n',
        line_end(s, from) < s.len() ==> s[line_end(s, from)] == '\n',
    decreases s.len() - from,
{
    if from < s.len() && s[from] != '\n' {
        lemma_line_end_bounds(s, from + 1);
    }
}

/// Two texts that agree up to a line break agree on where that line ends.
pub proof fn lemma_line_end_agree(a: Seq<char>, b: Seq<char>, from: int, k: int)
    requires
        0 <= from <= line_end(a, from) < k <= a.len(),
        k <= b.len(),
        a.subrange(0, k) == b.subrange(0, k),
    ensures
        line_end(b, from) == line_end(a, from),
    decreases a.len() - from,
{
    assert(a[from] == a.subrange(0, k)[from]);
    assert(b[from] == b.subrange(0, k)[from]);
    if a[from] != '\n' {
        lemma_line_end_bounds(a, from + 1);
        lemma_line_end_agree(a, b, from + 1, k);
    }
}

/// Texts that agree up to and including the second line break of the first
/// have the same first two lines.
pub proof fn lemma_two_lines_agree(a: Seq<char>, b: Seq<char>, k: int)
    requires
        line_end(a, 0) < a.len(),
        k == line_end(a, line_end(a, 0) + 1) + 1,
        k <= a.len(),
        k <= b.len(),
        a.subrange(0, k) == b.subrange(0, k),
    ensures
        first_line(b) == first_line(a),
        second_line(b) == second_line(a),
{
    let e0 = line_end(a, 0);
    lemma_line_end_bounds(a, 0);
    lemma_line_end_bounds(a, e0 + 1);
    lemma_line_end_agree(a, b, 0, k);
    lemma_line_end_agree(a, b, e0 + 1, k);
    let e1 = line_end(a, e0 + 1);
    assert(first_line(a) =~= a.subrange(0, k).subrange(0, e0));
    assert(first_line(b) =~= b.subrange(0, k).subrange(0, e0));
    assert(second_line(a) =~= a.subrange(0, k).subrange(e0 + 1, e1));
    assert(second_line(b) =~= b.subrange(0, k).subrange(e0 + 1, e1));
}

/// `line_end` on the characters of a vector.
pub fn line_end_exec(v: &Vec<char>, from: usize) -> (r: usize)
    requires
        from <= v.len(),
    ensures
        r as int == line_end(v@, from as int),
{
    let mut i: usize = from;
    while i < v.len() && v[i] != '\n'
        invariant
            from <= i <= v.len(),
            line_end(v@, from as int) == line_end(v@, i as int),
        decreases v.len() - i,
    {
        i = i + 1;
    }
    i
}

/// The first two lines of `v`, as `first_line` and `second_line` give them.
pub fn two_lines_of(v: &Vec<char>) -> (r: (Vec<char>, Vec<char>))
    ensures
        r.0@ == first_line(v@),
        r.1@ == second_line(v@),
{
    proof {
        lemma_line_end_bounds(v@, 0);
    }
    let e = line_end_exec(v, 0);
    let first = slice_of(v, 0, e);
    if e >= v.len() {
        return (first, Vec::new());
    }
    proof {
        lemma_line_end_bounds(v@, e + 1);
    }
    let f = line_end_exec(v, e + 1);
    let second = slice_of(v, e + 1, f);
    (first, second)
}

} // verus!

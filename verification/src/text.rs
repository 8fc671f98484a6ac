//! Character-sequence operations used throughout the library: substring
//! occurrence, replacement, splitting and joining, each with an executable
//! implementation proved against a recursive specification.
use vstd::prelude::*;

verus! {

/// `pat` occurs in `s` starting at position `i`.
pub open spec fn occurs_at(s: Seq<char>, pat: Seq<char>, i: int) -> bool {
    0 <= i && i + pat.len() <= s.len() && s.subrange(i, i + pat.len() as int) == pat
}

/// `pat` occurs somewhere in `s`.
pub open spec fn occurs(s: Seq<char>, pat: Seq<char>) -> bool {
    exists|i: int| occurs_at(s, pat, i)
}

/// Left-to-right, non-overlapping replacement of `pat` by `rep`, as
/// `str::replace` performs it: at each position, if `pat` starts there it is
/// consumed and `rep` emitted, otherwise the character is copied.
pub open spec fn spec_replace(s: Seq<char>, pat: Seq<char>, rep: Seq<char>) -> Seq<char>
    decreases s.len(),
{
    if pat.len() > 0 && s.len() >= pat.len() && s.subrange(0, pat.len() as int) == pat {
        rep + spec_replace(s.skip(pat.len() as int), pat, rep)
    } else if s.len() == 0 {
        Seq::empty()
    } else {
        seq![s[0]] + spec_replace(s.skip(1), pat, rep)
    }
}

/// Splitting `s` at every non-overlapping occurrence of `sep`, as
/// `str::split` performs it; the result always has at least one piece.
pub open spec fn spec_split(s: Seq<char>, sep: Seq<char>) -> Seq<Seq<char>>
    decreases s.len(),
{
    if sep.len() > 0 && s.len() >= sep.len() && s.subrange(0, sep.len() as int) == sep {
        seq![Seq::<char>::empty()] + spec_split(s.skip(sep.len() as int), sep)
    } else if s.len() == 0 {
        seq![Seq::<char>::empty()]
    } else {
        let rest = spec_split(s.skip(1), sep);
        seq![seq![s[0]] + rest[0]] + rest.skip(1)
    }
}

/// The pieces of a split, joined back with `sep` between them.
pub open spec fn spec_join(parts: Seq<Seq<char>>, sep: Seq<char>) -> Seq<char>
    decreases parts.len(),
{
    if parts.len() == 0 {
        Seq::empty()
    } else if parts.len() == 1 {
        parts[0]
    } else {
        parts[0] + sep + spec_join(parts.skip(1), sep)
    }
}

pub proof fn lemma_split_nonempty(s: Seq<char>, sep: Seq<char>)
    ensures
        spec_split(s, sep).len() >= 1,
    decreases s.len(),
{
    if sep.len() > 0 && s.len() >= sep.len() && s.subrange(0, sep.len() as int) == sep {
    } else if s.len() == 0 {
    } else {
        lemma_split_nonempty(s.skip(1), sep);
    }
}

/// Decides whether `pat` occurs in `s` at position `i`.
pub fn match_at(s: &str, i: usize, pat: &str) -> (r: bool)
    requires
        i <= s@.len(),
    ensures
        r == occurs_at(s@, pat@, i as int),
{
    let n = s.unicode_len();
    let p = pat.unicode_len();
    if n - i < p {
        assert(!occurs_at(s@, pat@, i as int));
        return false;
    }
    let mut j: usize = 0;
    while j < p
        invariant
            j <= p,
            i + p <= n,
            n == s@.len(),
            p == pat@.len(),
            forall|k: int| 0 <= k < j ==> s@[i + k] == pat@[k],
        decreases p - j,
    {
        let cs = s.get_char(i + j);
        let cp = pat.get_char(j);
        if cs != cp {
            proof {
                assert(s@.subrange(i as int, i + p as int)[j as int] == s@[i + j]);
                assert(s@.subrange(i as int, i + p as int) != pat@);
            }
            return false;
        }
        j += 1;
    }
    proof {
        assert(s@.subrange(i as int, i + p as int) =~= pat@);
    }
    true
}

/// Replaces every non-overlapping occurrence of `pat` in `s` by `rep`,
/// scanning left to right.
pub fn replace_all(s: &str, pat: &str, rep: &str) -> (r: String)
    requires
        pat@.len() > 0,
    ensures
        r@ == spec_replace(s@, pat@, rep@),
{
    let mut out = String::new();
    let n = s.unicode_len();
    let p = pat.unicode_len();
    let mut i: usize = 0;
    proof {
        assert(s@.skip(0) =~= s@);
        assert(out@ + spec_replace(s@, pat@, rep@) =~= spec_replace(s@, pat@, rep@));
    }
    while i < n
        invariant
            i <= n,
            n == s@.len(),
            p == pat@.len(),
            p > 0,
            out@ + spec_replace(s@.skip(i as int), pat@, rep@) == spec_replace(s@, pat@, rep@),
        decreases n - i,
    {
        let ghost pre = out@;
        if match_at(s, i, pat) {
            out.append(rep);
            proof {
                assert(s@.skip(i as int).subrange(0, p as int) =~= s@.subrange(
                    i as int,
                    i + p as int,
                ));
                assert(s@.skip(i as int).skip(p as int) =~= s@.skip(i + p as int));
                assert(pre + (rep@ + spec_replace(s@.skip(i + p as int), pat@, rep@)) =~= (pre
                    + rep@) + spec_replace(s@.skip(i + p as int), pat@, rep@));
            }
            i += p;
        } else {
            let c = s.substring_char(i, i + 1);
            out.append(c);
            proof {
                assert(s@.skip(i as int).len() > 0);
                if s@.skip(i as int).len() >= p && s@.skip(i as int).subrange(0, p as int) == pat@ {
                    assert(s@.skip(i as int).subrange(0, p as int) =~= s@.subrange(
                        i as int,
                        i + p as int,
                    ));
                    assert(occurs_at(s@, pat@, i as int));
                    assert(false);
                }
                assert(c@ =~= seq![s@.skip(i as int)[0]]);
                assert(s@.skip(i as int).skip(1) =~= s@.skip(i + 1));
                assert(pre + (c@ + spec_replace(s@.skip(i + 1), pat@, rep@)) =~= (pre + c@)
                    + spec_replace(s@.skip(i + 1), pat@, rep@));
            }
            i += 1;
        }
    }
    proof {
        assert(s@.skip(n as int) =~= Seq::<char>::empty());
        assert(out@ + Seq::<char>::empty() =~= out@);
    }
    out
}

/// The split with its first piece extended on the left by `c`.
pub open spec fn prepend_first(c: Seq<char>, parts: Seq<Seq<char>>) -> Seq<Seq<char>>
    recommends
        parts.len() >= 1,
{
    seq![c + parts[0]] + parts.skip(1)
}

/// Splits `s` at every non-overlapping occurrence of `sep`.
pub fn split_str(s: &str, sep: &str) -> (r: Vec<String>)
    requires
        sep@.len() > 0,
    ensures
        r.deep_view() == spec_split(s@, sep@),
{
    let mut done: Vec<String> = Vec::new();
    let mut cur = String::new();
    let n = s.unicode_len();
    let p = sep.unicode_len();
    let mut i: usize = 0;
    proof {
        lemma_split_nonempty(s@, sep@);
        assert(s@.skip(0) =~= s@);
        assert(done.deep_view() =~= Seq::<Seq<char>>::empty());
        assert(cur@ + spec_split(s@, sep@)[0] =~= spec_split(s@, sep@)[0]);
        assert(done.deep_view() + prepend_first(cur@, spec_split(s@, sep@)) =~= seq![spec_split(
            s@,
            sep@,
        )[0]] + spec_split(s@, sep@).skip(1));
        assert(seq![spec_split(s@, sep@)[0]] + spec_split(s@, sep@).skip(1) =~= spec_split(
            s@,
            sep@,
        ));
    }
    while i < n
        invariant
            i <= n,
            n == s@.len(),
            p == sep@.len(),
            p > 0,
            spec_split(s@, sep@) == done.deep_view() + prepend_first(
                cur@,
                spec_split(s@.skip(i as int), sep@),
            ),
        decreases n - i,
    {
        let ghost pre_done = done.deep_view();
        let ghost pre_cur = cur@;
        proof {
            lemma_split_nonempty(s@.skip(i as int), sep@);
        }
        if match_at(s, i, sep) {
            done.push(cur);
            cur = String::new();
            proof {
                let tail = spec_split(s@.skip(i + p as int), sep@);
                lemma_split_nonempty(s@.skip(i + p as int), sep@);
                assert(s@.skip(i as int).subrange(0, p as int) =~= s@.subrange(
                    i as int,
                    i + p as int,
                ));
                assert(s@.skip(i as int).skip(p as int) =~= s@.skip(i + p as int));
                assert(spec_split(s@.skip(i as int), sep@) == seq![Seq::<char>::empty()] + tail);
                assert((seq![Seq::<char>::empty()] + tail)[0] =~= Seq::<char>::empty());
                assert(pre_cur + Seq::<char>::empty() =~= pre_cur);
                assert((seq![Seq::<char>::empty()] + tail).skip(1) =~= tail);
                assert(prepend_first(pre_cur, seq![Seq::<char>::empty()] + tail) =~= seq![pre_cur]
                    + tail);
                assert(done.deep_view() =~= pre_done + seq![pre_cur]);
                assert(Seq::<char>::empty() + tail[0] =~= tail[0]);
                assert(prepend_first(Seq::<char>::empty(), tail) =~= seq![tail[0]] + tail.skip(1));
                assert(seq![tail[0]] + tail.skip(1) =~= tail);
                assert(pre_done + (seq![pre_cur] + tail) =~= (pre_done + seq![pre_cur]) + tail);
            }
            i += p;
        } else {
            let c = s.substring_char(i, i + 1);
            cur.append(c);
            proof {
                let rest = spec_split(s@.skip(i + 1), sep@);
                lemma_split_nonempty(s@.skip(i + 1), sep@);
                assert(s@.skip(i as int).len() > 0);
                if s@.skip(i as int).len() >= p && s@.skip(i as int).subrange(0, p as int)
                    == sep@ {
                    assert(s@.skip(i as int).subrange(0, p as int) =~= s@.subrange(
                        i as int,
                        i + p as int,
                    ));
                    assert(occurs_at(s@, sep@, i as int));
                    assert(false);
                }
                assert(s@.skip(i as int).skip(1) =~= s@.skip(i + 1));
                assert(c@ =~= seq![s@.skip(i as int)[0]]);
                assert(spec_split(s@.skip(i as int), sep@) == seq![seq![s@.skip(i as int)[0]]
                    + rest[0]] + rest.skip(1));
                let whole = seq![seq![s@.skip(i as int)[0]] + rest[0]] + rest.skip(1);
                assert(whole[0] == seq![s@.skip(i as int)[0]] + rest[0]);
                assert(whole.skip(1) =~= rest.skip(1));
                assert(pre_cur + (seq![s@.skip(i as int)[0]] + rest[0]) =~= (pre_cur + c@)
                    + rest[0]);
                assert(prepend_first(pre_cur, whole) =~= prepend_first(pre_cur + c@, rest));
            }
            i += 1;
        }
    }
    proof {
        assert(s@.skip(n as int) =~= Seq::<char>::empty());
        assert(spec_split(Seq::<char>::empty(), sep@) == seq![Seq::<char>::empty()]);
    }
    let ghost pre_done = done.deep_view();
    let ghost pre_cur = cur@;
    done.push(cur);
    proof {
        assert(prepend_first(pre_cur, seq![Seq::<char>::empty()]) =~= seq![pre_cur]);
        assert(done.deep_view() =~= pre_done + seq![pre_cur]);
    }
    done
}

/// Joins the strings of `v`, placing `sep` between consecutive elements.
pub fn join_strs(v: &Vec<String>, sep: &str) -> (r: String)
    ensures
        r@ == spec_join(v.deep_view(), sep@),
{
    let mut out = String::new();
    if v.len() == 0 {
        return out;
    }
    let mut i: usize = 0;
    while i < v.len()
        invariant
            i <= v@.len(),
            out@ == spec_join(v.deep_view().take(i as int), sep@),
        decreases v@.len() - i,
    {
        let ghost pre = out@;
        if i > 0 {
            out.append(sep);
        }
        out.append(v[i].as_str());
        proof {
            lemma_join_step(v.deep_view(), sep@, i as int);
            if i == 0 {
                assert(out@ =~= pre + v.deep_view()[0]);
            }
        }
        i += 1;
    }
    proof {
        assert(v.deep_view().take(v@.len() as int) =~= v.deep_view());
    }
    out
}

/// Joining one more piece appends a separator (when something precedes) and
/// the piece itself.
pub proof fn lemma_join_step(parts: Seq<Seq<char>>, sep: Seq<char>, i: int)
    requires
        0 <= i < parts.len(),
    ensures
        i == 0 ==> spec_join(parts.take(1), sep) == parts[0],
        i > 0 ==> spec_join(parts.take(i + 1), sep) == spec_join(parts.take(i), sep) + sep
            + parts[i],
    decreases i,
{
    if i == 0 {
        assert(parts.take(1) =~= seq![parts[0]]);
        assert(spec_join(seq![parts[0]], sep) == parts[0]);
    } else {
        let a = parts.take(i + 1);
        let b = parts.take(i);
        if i == 1 {
            assert(a =~= seq![parts[0], parts[1]]);
            assert(a.skip(1) =~= seq![parts[1]]);
            assert(a.len() == 2 && a[0] == parts[0]);
            assert(spec_join(seq![parts[1]], sep) == parts[1]);
            assert(spec_join(a, sep) == parts[0] + sep + parts[1]);
            assert(b =~= seq![parts[0]]);
        } else {
            lemma_join_step(parts.skip(1), sep, i - 1);
            assert(a.skip(1) =~= parts.skip(1).take(i));
            assert(b.skip(1) =~= parts.skip(1).take(i - 1));
            assert(parts.skip(1)[i - 1] == parts[i]);
            assert(a.len() >= 2 && a[0] == parts[0]);
            assert(spec_join(a, sep) == parts[0] + sep + spec_join(parts.skip(1).take(i), sep));
            assert(spec_join(b, sep) == parts[0] + sep + spec_join(
                parts.skip(1).take(i - 1),
                sep,
            ));
            assert((parts[0] + sep + (spec_join(parts.skip(1).take(i - 1), sep) + sep + parts[i]))
                =~= (parts[0] + sep + spec_join(parts.skip(1).take(i - 1), sep)) + sep + parts[i]);
        }
    }
}

pub proof fn lemma_occurs_shift(s: Seq<char>, pat: Seq<char>, i: int)
    requires
        0 <= i,
        s.len() >= 1,
    ensures
        occurs_at(s.skip(1), pat, i) == occurs_at(s, pat, i + 1),
{
    if occurs_at(s.skip(1), pat, i) {
        assert(s.subrange(i + 1, i + 1 + pat.len() as int) =~= s.skip(1).subrange(
            i,
            i + pat.len() as int,
        ));
    }
    if occurs_at(s, pat, i + 1) {
        assert(s.skip(1).subrange(i, i + pat.len() as int) =~= s.subrange(
            i + 1,
            i + 1 + pat.len() as int,
        ));
    }
}

/// Where `pat` occurs, the replacement text occurs in the result.
pub proof fn lemma_replace_contains_rep(s: Seq<char>, pat: Seq<char>, rep: Seq<char>)
    requires
        pat.len() > 0,
        occurs(s, pat),
    ensures
        occurs(spec_replace(s, pat, rep), rep),
    decreases s.len(),
{
    let r = spec_replace(s, pat, rep);
    if s.len() >= pat.len() && s.subrange(0, pat.len() as int) == pat {
        assert(r.subrange(0, rep.len() as int) =~= rep);
        assert(occurs_at(r, rep, 0));
    } else if s.len() == 0 {
        let i = choose|i: int| occurs_at(s, pat, i);
        assert(false);
    } else {
        let i = choose|i: int| occurs_at(s, pat, i);
        if i == 0 {
            assert(false);
        }
        lemma_occurs_shift(s, pat, i - 1);
        assert(occurs_at(s.skip(1), pat, i - 1));
        lemma_replace_contains_rep(s.skip(1), pat, rep);
        let rr = spec_replace(s.skip(1), pat, rep);
        let j = choose|j: int| occurs_at(rr, rep, j);
        assert(r.subrange(j + 1, j + 1 + rep.len() as int) =~= rr.subrange(
            j,
            j + rep.len() as int,
        ));
        assert(occurs_at(r, rep, j + 1));
    }
}

/// Replacing a non-empty string by a non-empty one keeps the result
/// non-empty.
pub proof fn lemma_replace_nonempty(s: Seq<char>, pat: Seq<char>, rep: Seq<char>)
    requires
        s.len() > 0,
        rep.len() > 0,
    ensures
        spec_replace(s, pat, rep).len() > 0,
{
}

/// The result of a replacement either is the input itself, or agrees with it
/// up to some position where the first character of `rep` stands.
proof fn lemma_replace_shape(t: Seq<char>, pat: Seq<char>, rep: Seq<char>)
    requires
        pat.len() > 0,
        rep.len() > 0,
    ensures
        ({
            let r = spec_replace(t, pat, rep);
            r == t || exists|m: int|
                0 <= m <= t.len() && m < r.len() && #[trigger] r.take(m) == t.take(m) && r[m]
                    == rep[0]
        }),
    decreases t.len(),
{
    let r = spec_replace(t, pat, rep);
    if t.len() >= pat.len() && t.subrange(0, pat.len() as int) == pat {
        assert(r.take(0) =~= t.take(0));
        assert(r[0] == rep[0]);
        assert(0 <= 0 <= t.len() && 0 < r.len() && r.take(0) == t.take(0) && r[0] == rep[0]);
    } else if t.len() == 0 {
        assert(r =~= t);
    } else {
        let rr = spec_replace(t.skip(1), pat, rep);
        lemma_replace_shape(t.skip(1), pat, rep);
        if rr == t.skip(1) {
            assert(r =~= t);
        } else {
            let m = choose|m: int|
                0 <= m <= t.skip(1).len() && m < rr.len() && #[trigger] rr.take(m) == t.skip(
                    1,
                ).take(m) && rr[m] == rep[0];
            assert(r.take(m + 1) =~= t.take(m + 1)) by {
                assert forall|k: int| 0 <= k < m + 1 implies r[k] == t[k] by {
                    if k >= 1 {
                        assert(rr.take(m)[k - 1] == t.skip(1).take(m)[k - 1]);
                    }
                }
            }
            assert(r[m + 1] == rr[m] == rep[0]);
            assert(0 <= m + 1 <= t.len() && m + 1 < r.len() && r.take(m + 1) == t.take(m + 1)
                && r[m + 1] == rep[0]);
        }
    }
}

/// After replacing `pat` by a replacement that does not contain `pat`, does
/// not start or end with a character of `pat`, and is non-empty, no
/// occurrence of `pat` remains.
pub proof fn lemma_replace_free(s: Seq<char>, pat: Seq<char>, rep: Seq<char>)
    requires
        pat.len() > 0,
        rep.len() > 0,
        !occurs(rep, pat),
        !pat.contains(rep[0]),
        !pat.contains(rep[rep.len() - 1]),
    ensures
        !occurs(spec_replace(s, pat, rep), pat),
    decreases s.len(),
{
    let r = spec_replace(s, pat, rep);
    let p = pat.len() as int;
    if s.len() >= pat.len() && s.subrange(0, p) == pat {
        let rr = spec_replace(s.skip(p), pat, rep);
        lemma_replace_free(s.skip(p), pat, rep);
        assert forall|i: int| !occurs_at(r, pat, i) by {
            if occurs_at(r, pat, i) {
                if i + p <= rep.len() {
                    assert(rep.subrange(i, i + p) =~= r.subrange(i, i + p));
                    assert(occurs_at(rep, pat, i));
                } else if i < rep.len() {
                    let j = rep.len() - 1;
                    assert(r.subrange(i, i + p)[j - i] == r[j]);
                    assert(pat[j - i] == rep[rep.len() - 1]);
                    assert(pat.contains(rep[rep.len() - 1]));
                } else {
                    assert(rr.subrange(i - rep.len(), i - rep.len() + p) =~= r.subrange(
                        i,
                        i + p,
                    ));
                    assert(occurs_at(rr, pat, i - rep.len()));
                }
            }
        }
    } else if s.len() == 0 {
        assert forall|i: int| !occurs_at(r, pat, i) by {}
    } else {
        let t = s.skip(1);
        let rr = spec_replace(t, pat, rep);
        lemma_replace_free(t, pat, rep);
        assert forall|i: int| !occurs_at(r, pat, i) by {
            if occurs_at(r, pat, i) {
                if i >= 1 {
                    assert(rr.subrange(i - 1, i - 1 + p) =~= r.subrange(i, i + p));
                    assert(occurs_at(rr, pat, i - 1));
                } else {
                    assert(i == 0);
                    assert(pat[0] == r[0]);
                    assert(r[0] == s[0]);
                    assert(p <= r.len());
                    assert(rr.subrange(0, p - 1) =~= pat.skip(1)) by {
                        assert forall|k: int| 0 <= k < p - 1 implies rr[k] == pat[k + 1] by {
                            assert(r.subrange(0, p)[k + 1] == r[k + 1]);
                        }
                    }
                    lemma_replace_shape(t, pat, rep);
                    if rr == t {
                        assert(s.subrange(0, p) =~= pat) by {
                            assert forall|k: int| 0 <= k < p implies s[k] == pat[k] by {
                                if k >= 1 {
                                    assert(rr.subrange(0, p - 1)[k - 1] == rr[k - 1]);
                                }
                            }
                        }
                        assert(false);
                    } else {
                        let m = choose|m: int|
                            0 <= m <= t.len() && m < rr.len() && #[trigger] rr.take(m) == t.take(
                                m,
                            ) && rr[m] == rep[0];
                        if m >= p - 1 {
                            assert(s.subrange(0, p) =~= pat) by {
                                assert forall|k: int| 0 <= k < p implies s[k] == pat[k] by {
                                    if k >= 1 {
                                        assert(rr.take(m)[k - 1] == t.take(m)[k - 1]);
                                        assert(rr.subrange(0, p - 1)[k - 1] == rr[k - 1]);
                                    }
                                }
                            }
                            assert(false);
                        } else {
                            assert(rr.subrange(0, p - 1)[m] == rr[m]);
                            assert(pat[m + 1] == rep[0]);
                            assert(pat.contains(rep[0]));
                        }
                    }
                }
            }
        }
    }
}

/// Decomposes a replacement at the first occurrence of the pattern: the text
/// before it is copied, the occurrence is replaced, and the remainder is
/// processed on its own.
pub proof fn lemma_replace_at_first(s: Seq<char>, pat: Seq<char>, rep: Seq<char>, m: int)
    requires
        pat.len() > 0,
        occurs_at(s, pat, m),
        forall|i: int| 0 <= i < m ==> !occurs_at(s, pat, i),
    ensures
        spec_replace(s, pat, rep) == s.take(m) + rep + spec_replace(
            s.skip(m + pat.len()),
            pat,
            rep,
        ),
    decreases m,
{
    let p = pat.len() as int;
    let r = spec_replace(s, pat, rep);
    if m == 0 {
        assert(s.subrange(0, p) == pat);
        assert(r == rep + spec_replace(s.skip(p), pat, rep));
        assert(s.take(0) =~= Seq::<char>::empty());
        assert(s.take(0) + rep + spec_replace(s.skip(p), pat, rep) =~= rep + spec_replace(
            s.skip(p),
            pat,
            rep,
        ));
    } else {
        assert(!occurs_at(s, pat, 0));
        assert(s.len() > 0);
        if s.len() >= p && s.subrange(0, p) == pat {
            assert(occurs_at(s, pat, 0));
            assert(false);
        }
        let t = s.skip(1);
        lemma_occurs_shift(s, pat, m - 1);
        assert(occurs_at(t, pat, m - 1));
        assert forall|i: int| 0 <= i < m - 1 implies !occurs_at(t, pat, i) by {
            lemma_occurs_shift(s, pat, i);
            assert(!occurs_at(s, pat, i + 1));
        }
        lemma_replace_at_first(t, pat, rep, m - 1);
        assert(t.skip(m - 1 + p) =~= s.skip(m + p));
        assert(r =~= s.take(m) + rep + spec_replace(s.skip(m + p), pat, rep)) by {
            let z = spec_replace(s.skip(m + p), pat, rep);
            assert(spec_replace(t, pat, rep) == t.take(m - 1) + rep + z);
            assert(r == seq![s[0]] + (t.take(m - 1) + rep + z));
            assert forall|k: int| 0 <= k < r.len() implies r[k] == (s.take(m) + rep + z)[k] by {
                if 1 <= k < m {
                    assert((t.take(m - 1) + rep + z)[k - 1] == t.take(m - 1)[k - 1]);
                }
            }
        }
    }
}

/// A string without any occurrence of `sep` splits into itself alone.
pub proof fn lemma_split_whole(s: Seq<char>, sep: Seq<char>)
    requires
        sep.len() > 0,
        !occurs(s, sep),
    ensures
        spec_split(s, sep) == seq![s],
    decreases s.len(),
{
    if s.len() >= sep.len() && s.subrange(0, sep.len() as int) == sep {
        assert(occurs_at(s, sep, 0));
        assert(false);
    } else if s.len() == 0 {
        assert(spec_split(s, sep) =~~= seq![s]);
    } else {
        assert forall|i: int| !occurs_at(s.skip(1), sep, i) by {
            if 0 <= i {
                lemma_occurs_shift(s, sep, i);
                assert(!occurs_at(s, sep, i + 1));
            }
        }
        lemma_split_whole(s.skip(1), sep);
        let rest = spec_split(s.skip(1), sep);
        assert(rest == seq![s.skip(1)]);
        assert(seq![s[0]] + s.skip(1) =~= s);
        assert(rest.skip(1) =~= Seq::<Seq<char>>::empty());
        assert(seq![seq![s[0]] + rest[0]] + rest.skip(1) =~= seq![s]);
    }
}

/// Decides character-sequence equality of two strings.
pub fn str_eq(a: &str, b: &str) -> (r: bool)
    ensures
        r == (a@ == b@),
{
    let n = a.unicode_len();
    if n != b.unicode_len() {
        return false;
    }
    let mut i: usize = 0;
    while i < n
        invariant
            i <= n,
            n == a@.len(),
            n == b@.len(),
            forall|k: int| 0 <= k < i ==> a@[k] == b@[k],
        decreases n - i,
    {
        if a.get_char(i) != b.get_char(i) {
            return false;
        }
        i += 1;
    }
    proof {
        assert(a@ =~= b@);
    }
    true
}

} // verus!

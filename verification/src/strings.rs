//! Substring search and replacement over character sequences.
//!
//! The spec functions here define what it means for a pattern to occur in a
//! string and what left-to-right replacement of every occurrence produces;
//! the executable routines are verified against those definitions.

use vstd::prelude::*;

verus! {

/// The pattern `pat` occurs in `s` starting at character position `i`.
pub open spec fn match_at(s: Seq<char>, pat: Seq<char>, i: int) -> bool {
    &&& 0 <= i
    &&& i + pat.len() <= s.len()
    &&& forall|j: int| 0 <= j < pat.len() ==> s[i + j] == pat[j]
}

/// The pattern `pat` occurs somewhere in `s`.
pub open spec fn contains_sub(s: Seq<char>, pat: Seq<char>) -> bool {
    exists|i: int| match_at(s, pat, i)
}

/// `s` with every occurrence of `pat` replaced by `rep`, scanning left to
/// right and never rescanning text already replaced (the behaviour of
/// `str::replace`). An empty pattern leaves `s` unchanged.
pub open spec fn replace_all(s: Seq<char>, pat: Seq<char>, rep: Seq<char>) -> Seq<char>
    decreases s.len(),
{
    if pat.len() == 0 || s.len() < pat.len() {
        s
    } else if match_at(s, pat, 0) {
        rep + replace_all(s.skip(pat.len() as int), pat, rep)
    } else {
        seq![s[0]] + replace_all(s.skip(1), pat, rep)
    }
}

/// Checks a single candidate position for a match of `pat` in `s`.
pub(crate) fn match_here(s: &str, pat: &str, i: usize) -> (b: bool)
    requires
        i + pat@.len() <= s@.len(),
    ensures
        b == match_at(s@, pat@, i as int),
{
    let slen = s.unicode_len();
    let plen = pat.unicode_len();
    let mut j: usize = 0;
    while j < plen
        invariant
            i + pat@.len() <= s@.len(),
            slen == s@.len(),
            plen == pat@.len(),
            j <= plen,
            forall|k: int| 0 <= k < j ==> s@[i + k] == pat@[k],
        decreases plen - j,
    {
        if s.get_char(i + j) != pat.get_char(j) {
            assert(s@[i + j] != pat@[j as int]);
            return false;
        }
        j += 1;
    }
    true
}

/// Searches `s` for an occurrence of `pat`.
pub(crate) fn contains_pat(s: &str, pat: &str) -> (b: bool)
    requires
        pat@.len() >= 1,
    ensures
        b == contains_sub(s@, pat@),
{
    let slen = s.unicode_len();
    let plen = pat.unicode_len();
    if plen > slen {
        assert(forall|i: int| !match_at(s@, pat@, i));
        return false;
    }
    let mut i: usize = 0;
    while i <= slen - plen
        invariant
            slen == s@.len(),
            plen == pat@.len(),
            1 <= plen <= slen,
            i <= slen - plen + 1,
            forall|k: int| 0 <= k < i ==> !match_at(s@, pat@, k),
        decreases slen - plen + 1 - i,
    {
        if match_here(s, pat, i) {
            assert(match_at(s@, pat@, i as int));
            return true;
        }
        i += 1;
    }
    assert forall|k: int| !match_at(s@, pat@, k) by {
        if k >= i {
            assert(k + pat@.len() > s@.len());
        }
    };
    false
}

/// Unfolds `replace_all` at a position where the pattern matches.
proof fn lemma_replace_all_match(t: Seq<char>, pat: Seq<char>, rep: Seq<char>)
    requires
        pat.len() >= 1,
        match_at(t, pat, 0),
    ensures
        replace_all(t, pat, rep) == rep + replace_all(t.skip(pat.len() as int), pat, rep),
{
    assert(t.len() >= pat.len());
}

/// Unfolds `replace_all` at a position where the pattern does not match.
proof fn lemma_replace_all_step(t: Seq<char>, pat: Seq<char>, rep: Seq<char>)
    requires
        pat.len() >= 1,
        t.len() >= 1,
        !match_at(t, pat, 0),
    ensures
        replace_all(t, pat, rep) == seq![t[0]] + replace_all(t.skip(1), pat, rep),
{
    if t.len() < pat.len() {
        assert(t.skip(1).len() < pat.len());
        assert(replace_all(t.skip(1), pat, rep) == t.skip(1));
        assert(t =~= seq![t[0]] + t.skip(1));
    }
}

/// Builds `s` with every occurrence of `pat` replaced by `rep`, left to
/// right without rescanning.
pub(crate) fn replace_pat(s: &str, pat: &str, rep: &str) -> (r: String)
    requires
        pat@.len() >= 1,
    ensures
        r@ == replace_all(s@, pat@, rep@),
{
    let slen = s.unicode_len();
    let plen = pat.unicode_len();
    let mut r = String::new();
    proof {
        assert(s@.skip(0) =~= s@);
        assert(r@ + replace_all(s@, pat@, rep@) =~= replace_all(s@, pat@, rep@));
    }
    let mut i: usize = 0;
    while i < slen
        invariant
            slen == s@.len(),
            plen == pat@.len(),
            plen >= 1,
            i <= slen,
            r@ + replace_all(s@.skip(i as int), pat@, rep@) == replace_all(s@, pat@, rep@),
        decreases slen - i,
    {
        let ghost t = s@.skip(i as int);
        if plen <= slen - i && match_here(s, pat, i) {
            proof {
                assert(match_at(t, pat@, 0)) by {
                    assert(forall|j: int| 0 <= j < pat@.len() ==> t[j] == s@[i + j]);
                };
                lemma_replace_all_match(t, pat@, rep@);
                assert(t.skip(plen as int) =~= s@.skip(i + plen));
                assert((r@ + rep@) + replace_all(s@.skip(i + plen), pat@, rep@)
                    =~= r@ + (rep@ + replace_all(t.skip(plen as int), pat@, rep@)));
            }
            r.append(rep);
            i += plen;
        } else {
            proof {
                assert(!match_at(t, pat@, 0)) by {
                    if i + plen <= slen {
                        assert(!match_at(s@, pat@, i as int));
                        if match_at(t, pat@, 0) {
                            assert(forall|j: int| 0 <= j < pat@.len() ==> s@[i + j] == t[j]);
                            assert(match_at(s@, pat@, i as int));
                        }
                    }
                };
                lemma_replace_all_step(t, pat@, rep@);
                assert(t.skip(1) =~= s@.skip(i + 1));
                assert(seq![t[0]] =~= s@.subrange(i as int, i + 1));
                assert((r@ + s@.subrange(i as int, i + 1)) + replace_all(s@.skip(i + 1), pat@, rep@)
                    =~= r@ + (seq![t[0]] + replace_all(t.skip(1), pat@, rep@)));
            }
            let piece = s.substring_char(i, i + 1);
            r.append(piece);
            i += 1;
        }
    }
    proof {
        assert(s@.skip(slen as int) =~= Seq::<char>::empty());
        assert(replace_all(Seq::<char>::empty(), pat@, rep@) =~= Seq::<char>::empty());
        assert(r@ + Seq::<char>::empty() =~= r@);
    }
    r
}

/// `a` comes strictly before `b` in lexicographic order over character
/// (Unicode scalar) values, a proper prefix ordering first.
pub open spec fn lex_less(a: Seq<char>, b: Seq<char>) -> bool
    decreases a.len(),
{
    if b.len() == 0 {
        false
    } else if a.len() == 0 {
        true
    } else if (a[0] as u32) < (b[0] as u32) {
        true
    } else if a[0] == b[0] {
        lex_less(a.skip(1), b.skip(1))
    } else {
        false
    }
}

/// Lexicographic order is irreflexive: no string comes before itself.
pub proof fn lemma_lex_less_irreflexive(a: Seq<char>)
    ensures
        !lex_less(a, a),
    decreases a.len(),
{
    if a.len() > 0 {
        lemma_lex_less_irreflexive(a.skip(1));
    }
}

/// Three-way lexicographic comparison of two strings, character by character.
pub(crate) fn cmp_chars(a: &str, b: &str) -> (o: core::cmp::Ordering)
    ensures
        (o == core::cmp::Ordering::Equal) == (a@ == b@),
        (o == core::cmp::Ordering::Less) == lex_less(a@, b@),
        (o == core::cmp::Ordering::Greater) == (a@ != b@ && !lex_less(a@, b@)),
{
    let alen = a.unicode_len();
    let blen = b.unicode_len();
    proof {
        assert(a@.skip(0) =~= a@);
        assert(b@.skip(0) =~= b@);
    }
    let mut i: usize = 0;
    while i < alen && i < blen
        invariant
            alen == a@.len(),
            blen == b@.len(),
            i <= alen,
            i <= blen,
            lex_less(a@, b@) == lex_less(a@.skip(i as int), b@.skip(i as int)),
            (a@ == b@) == (a@.skip(i as int) == b@.skip(i as int)),
        decreases alen - i,
    {
        let ca = a.get_char(i);
        let cb = b.get_char(i);
        let ghost ta = a@.skip(i as int);
        let ghost tb = b@.skip(i as int);
        if (ca as u32) < (cb as u32) {
            proof {
                assert(ta[0] == ca && tb[0] == cb);
                assert(lex_less(ta, tb));
                assert(ta[0] != tb[0]);
            }
            return core::cmp::Ordering::Less;
        }
        if (cb as u32) < (ca as u32) {
            proof {
                assert(ta[0] == ca && tb[0] == cb);
                assert(!lex_less(ta, tb));
                assert(ta[0] != tb[0]);
            }
            return core::cmp::Ordering::Greater;
        }
        proof {
            assert(ca == cb);
            assert(ta[0] == ca && tb[0] == cb);
            assert(ta.skip(1) =~= a@.skip(i + 1));
            assert(tb.skip(1) =~= b@.skip(i + 1));
            assert(lex_less(ta, tb) == lex_less(ta.skip(1), tb.skip(1)));
            assert((ta == tb) == (ta.skip(1) == tb.skip(1))) by {
                if ta.skip(1) == tb.skip(1) {
                    assert(ta.len() == tb.len());
                    assert forall|j: int| 0 <= j < ta.len() implies ta[j] == tb[j] by {
                        if j >= 1 {
                            assert(ta[j] == ta.skip(1)[j - 1]);
                            assert(tb[j] == tb.skip(1)[j - 1]);
                        }
                    };
                    assert(ta =~= tb);
                }
                if ta == tb {
                    assert(ta.skip(1) =~= tb.skip(1));
                }
            };
        }
        i += 1;
    }
    let ghost ta = a@.skip(i as int);
    let ghost tb = b@.skip(i as int);
    if alen < blen {
        proof {
            assert(ta.len() == 0 && tb.len() > 0);
            assert(lex_less(ta, tb));
            assert(ta != tb);
        }
        core::cmp::Ordering::Less
    } else if blen < alen {
        proof {
            assert(tb.len() == 0);
            assert(!lex_less(ta, tb));
            assert(ta != tb);
        }
        core::cmp::Ordering::Greater
    } else {
        proof {
            assert(ta.len() == 0 && tb.len() == 0);
            assert(ta =~= tb);
            assert(!lex_less(ta, tb));
        }
        core::cmp::Ordering::Equal
    }
}

} // verus!

//! Resolution of a license expression to the sequence of license texts it
//! names: the expression is lowercased, split on the two separators into a
//! flat token list, and each token's template has its placeholders
//! substituted.
use vstd::prelude::*;
use crate::catalog;
use crate::catalog::{HOLDERS_TOKEN, YEAR_TOKEN};
use crate::numbers;
use crate::outside;
use crate::quoting;
use crate::text;

verus! {

/// Each piece split further on the and-separator, flattened in order.
pub open spec fn flatten_and(parts: Seq<Seq<char>>) -> Seq<Seq<char>>
    decreases parts.len(),
{
    if parts.len() == 0 {
        Seq::empty()
    } else {
        text::spec_split(parts[0], (" and ")@) + flatten_and(parts.skip(1))
    }
}

/// The flat token list of a lowercase expression: split on the or-separator,
/// each piece split on the and-separator, in order. The two separators are
/// treated identically; no expression structure survives.
pub open spec fn spec_tokens(expr_lc: Seq<char>) -> Seq<Seq<char>> {
    flatten_and(text::spec_split(expr_lc, (" or ")@))
}

/// The resolved text of one token: its template (empty for an unknown
/// identifier) with the year token replaced by the year's decimal rendering
/// and, when an author is given, the copyright-holders token replaced by the
/// author's quoted rendering.
pub open spec fn spec_resolve_token(tok: Seq<char>, authors: Option<Seq<char>>, year: int) -> Seq<
    char,
> {
    let with_year = text::spec_replace(
        catalog::template_or_empty(tok),
        YEAR_TOKEN@,
        numbers::spec_dec_int(year),
    );
    match authors {
        Some(a) => text::spec_replace(with_year, HOLDERS_TOKEN@, quoting::spec_quote(a)),
        None => with_year,
    }
}

/// The resolved texts of a lowercase expression, one per token, in token
/// order.
pub open spec fn spec_resolve(expr_lc: Seq<char>, authors: Option<Seq<char>>, year: int) -> Seq<
    Seq<char>,
> {
    spec_tokens(expr_lc).map_values(|t: Seq<char>| spec_resolve_token(t, authors, year))
}

/// Flattening one more piece appends that piece's and-split.
proof fn lemma_flatten_and_snoc(parts: Seq<Seq<char>>, j: int)
    requires
        0 <= j < parts.len(),
    ensures
        flatten_and(parts.take(j + 1)) == flatten_and(parts.take(j)) + text::spec_split(
            parts[j],
            (" and ")@,
        ),
    decreases j,
{
    if j == 0 {
        assert(parts.take(0) =~= Seq::<Seq<char>>::empty());
        assert(parts.take(1) =~= seq![parts[0]]);
        assert(parts.take(1).skip(1) =~= Seq::<Seq<char>>::empty());
        assert(flatten_and(parts.take(1)) == text::spec_split(parts[0], (" and ")@)
            + flatten_and(Seq::empty()));
        assert(text::spec_split(parts[0], (" and ")@) + Seq::<Seq<char>>::empty() =~=
            text::spec_split(parts[0], (" and ")@));
        assert(Seq::<Seq<char>>::empty() + text::spec_split(parts[0], (" and ")@) =~=
            text::spec_split(parts[0], (" and ")@));
    } else {
        lemma_flatten_and_snoc(parts.skip(1), j - 1);
        let a = parts.take(j + 1);
        let b = parts.take(j);
        assert(a.len() > 0 && a[0] == parts[0]);
        assert(b.len() > 0 && b[0] == parts[0]);
        assert(a.skip(1) =~= parts.skip(1).take(j));
        assert(b.skip(1) =~= parts.skip(1).take(j - 1));
        assert(parts.skip(1)[j - 1] == parts[j]);
        let s0 = text::spec_split(parts[0], (" and ")@);
        let sj = text::spec_split(parts[j], (" and ")@);
        assert(flatten_and(a) == s0 + (flatten_and(parts.skip(1).take(j - 1)) + sj));
        assert(flatten_and(b) == s0 + flatten_and(parts.skip(1).take(j - 1)));
        assert(s0 + (flatten_and(parts.skip(1).take(j - 1)) + sj) =~= (s0 + flatten_and(
            parts.skip(1).take(j - 1),
        )) + sj);
    }
}

/// Splits a lowercase expression into its flat token list.
pub fn tokenize(expr_lc: &str) -> (r: Vec<String>)
    ensures
        r.deep_view() == spec_tokens(expr_lc@),
{
    proof {
        reveal_strlit(" or ");
        reveal_strlit(" and ");
    }
    let or_parts = text::split_str(expr_lc, " or ");
    let mut toks: Vec<String> = Vec::new();
    let mut j: usize = 0;
    proof {
        assert(or_parts.deep_view().take(0) =~= Seq::<Seq<char>>::empty());
        assert(toks.deep_view() =~= Seq::<Seq<char>>::empty());
    }
    while j < or_parts.len()
        invariant
            j <= or_parts@.len(),
            or_parts.deep_view() == text::spec_split(expr_lc@, (" or ")@),
            toks.deep_view() == flatten_and(or_parts.deep_view().take(j as int)),
        decreases or_parts@.len() - j,
    {
        let ghost pre = toks.deep_view();
        proof {
            reveal_strlit(" and ");
            assert(or_parts[j as int]@ == or_parts.deep_view()[j as int]);
        }
        let mut ands = text::split_str(or_parts[j].as_str(), " and ");
        let ghost ands_dv = ands.deep_view();
        toks.append(&mut ands);
        proof {
            lemma_flatten_and_snoc(or_parts.deep_view(), j as int);
            assert(toks.deep_view() =~= pre + ands_dv);
        }
        j += 1;
    }
    proof {
        assert(or_parts.deep_view().take(or_parts@.len() as int) =~= or_parts.deep_view());
    }
    toks
}

/// Resolves an already-lowercased expression with a fixed year: one text per
/// token, in token order; an unknown identifier contributes an empty text.
pub fn resolve_lowered(expr_lc: &str, authors: &Option<String>, year: i32) -> (r: Vec<String>)
    ensures
        r.deep_view() == spec_resolve(expr_lc@, authors.deep_view(), year as int),
{
    let toks = tokenize(expr_lc);
    let year_text = numbers::i32_dec(year);
    let mut out: Vec<String> = Vec::new();
    let mut k: usize = 0;
    let ghost target = spec_resolve(expr_lc@, authors.deep_view(), year as int);
    proof {
        assert(out.deep_view() =~= target.take(0));
    }
    while k < toks.len()
        invariant
            k <= toks@.len(),
            toks.deep_view() == spec_tokens(expr_lc@),
            target == spec_resolve(expr_lc@, authors.deep_view(), year as int),
            year_text@ == numbers::spec_dec_int(year as int),
            out.deep_view() == target.take(k as int),
        decreases toks@.len() - k,
    {
        let ghost pre = out.deep_view();
        proof {
            reveal_strlit("`<year>`");
            reveal_strlit("`<copyright holders>`");
            reveal_strlit("");
            assert(toks[k as int]@ == toks.deep_view()[k as int]);
        }
        let tpl = match catalog::get_template(toks[k].as_str()) {
            Some(t) => t,
            None => String::new(),
        };
        assert(tpl@ == catalog::template_or_empty(toks[k as int]@));
        let with_year = text::replace_all(tpl.as_str(), YEAR_TOKEN, year_text.as_str());
        let resolved = match authors {
            Some(a) => {
                let quoted = quoting::quote_str(a.as_str());
                text::replace_all(with_year.as_str(), HOLDERS_TOKEN, quoted.as_str())
            },
            None => with_year,
        };
        assert(resolved@ == spec_resolve_token(
            toks.deep_view()[k as int],
            authors.deep_view(),
            year as int,
        ));
        out.push(resolved);
        proof {
            assert(target[k as int] == spec_resolve_token(
                spec_tokens(expr_lc@)[k as int],
                authors.deep_view(),
                year as int,
            ));
            assert(out.deep_view() =~= pre.push(resolved@));
            assert(target.take(k + 1) =~= target.take(k as int).push(target[k as int]));
        }
        k += 1;
    }
    proof {
        assert(target.take(toks@.len() as int) =~= target);
    }
    out
}

/// Resolves a license expression with the current UTC year: the expression is
/// lowercased, tokenized, and each token's template has its year placeholder
/// replaced by some year in chrono's documented range (the current UTC year,
/// or the epoch year when the clock cannot be read) — and, when an author
/// string is present, its copyright-holders placeholder replaced by the
/// author's quoted rendering.
pub fn lookup_md(license_name: &str, authors: &Option<String>) -> (r: Vec<String>)
    ensures
        exists|y: int|
            -262143 <= y <= 262142 && r.deep_view() == spec_resolve(
                outside::lower_of(license_name@),
                authors.deep_view(),
                y,
            ),
        r.deep_view().len() == spec_tokens(outside::lower_of(license_name@)).len(),
{
    let lowered = outside::lowercase(license_name);
    // When the system clock cannot give a usable timestamp, substitution
    // falls back to the epoch year rather than failing.
    let year: i32 = match outside::current_utc_year() {
        Some(y) => y,
        None => 1970,
    };
    let r = resolve_lowered(lowered.as_str(), authors, year);
    proof {
        assert(r.deep_view() == spec_resolve(
            outside::lower_of(license_name@),
            authors.deep_view(),
            year as int,
        ));
    }
    r
}

/// The tokens of the list that the catalog does not know, in order.
pub open spec fn spec_unresolved(toks: Seq<Seq<char>>) -> Seq<Seq<char>>
    decreases toks.len(),
{
    if toks.len() == 0 {
        Seq::empty()
    } else {
        (if catalog::spec_template(toks[0]) is None {
            seq![toks[0]]
        } else {
            Seq::empty()
        }) + spec_unresolved(toks.skip(1))
    }
}

proof fn lemma_unresolved_snoc(toks: Seq<Seq<char>>, j: int)
    requires
        0 <= j < toks.len(),
    ensures
        spec_unresolved(toks.take(j + 1)) == spec_unresolved(toks.take(j)) + (
        if catalog::spec_template(toks[j]) is None {
            seq![toks[j]]
        } else {
            Seq::<Seq<char>>::empty()
        }),
    decreases j,
{
    let tail = if catalog::spec_template(toks[j]) is None {
        seq![toks[j]]
    } else {
        Seq::<Seq<char>>::empty()
    };
    if j == 0 {
        assert(toks.take(0) =~= Seq::<Seq<char>>::empty());
        assert(toks.take(1) =~= seq![toks[0]]);
        assert(toks.take(1).skip(1) =~= Seq::<Seq<char>>::empty());
        assert(toks.take(1)[0] == toks[0]);
        assert(spec_unresolved(Seq::<Seq<char>>::empty()) =~= Seq::<Seq<char>>::empty());
        assert(spec_unresolved(toks.take(1)) == tail + spec_unresolved(toks.take(1).skip(1)));
        assert(tail + Seq::<Seq<char>>::empty() =~= tail);
        assert(spec_unresolved(toks.take(0)) + tail =~= tail);
    } else {
        lemma_unresolved_snoc(toks.skip(1), j - 1);
        let a = toks.take(j + 1);
        let b = toks.take(j);
        assert(a.len() > 0 && a[0] == toks[0]);
        assert(b.len() > 0 && b[0] == toks[0]);
        assert(a.skip(1) =~= toks.skip(1).take(j));
        assert(b.skip(1) =~= toks.skip(1).take(j - 1));
        assert(toks.skip(1)[j - 1] == toks[j]);
        let h = if catalog::spec_template(toks[0]) is None {
            seq![toks[0]]
        } else {
            Seq::<Seq<char>>::empty()
        };
        assert(spec_unresolved(a) == h + (spec_unresolved(toks.skip(1).take(j - 1)) + tail));
        assert(spec_unresolved(b) == h + spec_unresolved(toks.skip(1).take(j - 1)));
        assert(h + (spec_unresolved(toks.skip(1).take(j - 1)) + tail) =~= (h + spec_unresolved(
            toks.skip(1).take(j - 1),
        )) + tail);
    }
}

/// The identifiers of a lowercase expression that the catalog does not know:
/// the tokens the resolver turns into empty texts and the original reports
/// with a warning.
pub fn unresolved_identifiers(expr_lc: &str) -> (r: Vec<String>)
    ensures
        r.deep_view() == spec_unresolved(spec_tokens(expr_lc@)),
{
    let toks = tokenize(expr_lc);
    let mut out: Vec<String> = Vec::new();
    let mut k: usize = 0;
    proof {
        assert(out.deep_view() =~= spec_unresolved(toks.deep_view().take(0)));
        assert(toks.deep_view().take(0) =~= Seq::<Seq<char>>::empty());
    }
    while k < toks.len()
        invariant
            k <= toks@.len(),
            toks.deep_view() == spec_tokens(expr_lc@),
            out.deep_view() == spec_unresolved(toks.deep_view().take(k as int)),
        decreases toks@.len() - k,
    {
        let ghost pre = out.deep_view();
        proof {
            assert(toks[k as int]@ == toks.deep_view()[k as int]);
        }
        let known = catalog::get_template(toks[k].as_str());
        if known.is_none() {
            let t = toks[k].clone();
            out.push(t);
        }
        proof {
            lemma_unresolved_snoc(toks.deep_view(), k as int);
            if catalog::spec_template(toks.deep_view()[k as int]) is None {
                assert(out.deep_view() =~= pre + seq![toks.deep_view()[k as int]]);
            } else {
                assert(out.deep_view() =~= pre + Seq::<Seq<char>>::empty());
            }
        }
        k += 1;
    }
    proof {
        assert(toks.deep_view().take(toks@.len() as int) =~= toks.deep_view());
    }
    out
}

} // verus!

//! The library-wide properties of resolution, proved over the specification
//! functions that the public contracts use.
use vstd::prelude::*;
use crate::catalog;
use crate::catalog::{HOLDERS_TOKEN, YEAR_TOKEN};
use crate::numbers;
use crate::quoting;
use crate::resolver;
use crate::text;
use crate::text::{occurs, occurs_at};

verus! {

/// No supported identifier contains either expression separator.
#[verifier::rlimit(100)]
pub proof fn lemma_supported_sep_free(id: Seq<char>)
    requires
        catalog::spec_supported(id),
    ensures
        !occurs(id, (" or ")@),
        !occurs(id, (" and ")@),
{
    reveal_strlit(" or ");
    reveal_strlit(" and ");
    reveal_strlit("0bsd");
    reveal_strlit("apache-2.0");
    reveal_strlit("apache-v2.0");
    reveal_strlit("apache-2.0 with llvm-exception");
    reveal_strlit("apache-2.0-llvm");
    reveal_strlit("apache-v2.0-llvm");
    reveal_strlit("artistic-2.0");
    reveal_strlit("artistic-v2.0");
    reveal_strlit("bsd-2-clause");
    reveal_strlit("bsd-2");
    reveal_strlit("bsd-3-clause");
    reveal_strlit("bsd-3");
    reveal_strlit("epl-1.0");
    reveal_strlit("epl-v1.0");
    reveal_strlit("agpl-3.0");
    reveal_strlit("gnu-agpl-v3.0");
    reveal_strlit("fdl-1.3");
    reveal_strlit("gnu-fdl-v1.3");
    reveal_strlit("gpl-1.0");
    reveal_strlit("gnu-gpl-v1.0");
    reveal_strlit("gpl-2.0");
    reveal_strlit("gnu-gpl-v2.0");
    reveal_strlit("gpl-3.0");
    reveal_strlit("gnu-gpl-v3.0");
    reveal_strlit("lgpl-2.1");
    reveal_strlit("gnu-lgpl-v2.1");
    reveal_strlit("lgpl-3.0");
    reveal_strlit("gnu-lgpl-v3.0");
    reveal_strlit("mit");
    reveal_strlit("mpl-2.0");
    reveal_strlit("mpl-v2.0");
    reveal_strlit("unlicense");
    reveal_strlit("zlib");
    reveal_strlit("isc");
    reveal_strlit("bsl-1.0");
    let orsep = (" or ")@;
    let andsep = (" and ")@;
    assert(orsep.len() == 4 && orsep[0] == ' ' && orsep[1] == 'o');
    assert(andsep.len() == 5 && andsep[0] == ' ' && andsep[1] == 'a');
    assert forall|i: int| !occurs_at(id, orsep, i) by {
        if occurs_at(id, orsep, i) {
            assert(id.subrange(i, i + 4)[0] == id[i]);
            assert(id.subrange(i, i + 4)[1] == id[i + 1]);
            assert(id[i] == ' ' && id[i + 1] == 'o');
            assert(false);
        }
    }
    assert forall|i: int| !occurs_at(id, andsep, i) by {
        if occurs_at(id, andsep, i) {
            assert(id.subrange(i, i + 5)[0] == id[i]);
            assert(id.subrange(i, i + 5)[1] == id[i + 1]);
            assert(id[i] == ' ' && id[i + 1] == 'a');
            assert(false);
        }
    }
}

/// A supported identifier, used as the whole expression, is its own single
/// token.
pub proof fn lemma_supported_single_token(id: Seq<char>)
    requires
        catalog::spec_supported(id),
    ensures
        resolver::spec_tokens(id) == seq![id],
{
    reveal_strlit(" or ");
    reveal_strlit(" and ");
    lemma_supported_sep_free(id);
    text::lemma_split_whole(id, (" or ")@);
    text::lemma_split_whole(id, (" and ")@);
    let parts = text::spec_split(id, (" or ")@);
    assert(parts == seq![id]);
    assert(parts.skip(1) =~= Seq::<Seq<char>>::empty());
    assert(resolver::flatten_and(parts) == text::spec_split(id, (" and ")@)
        + resolver::flatten_and(Seq::empty()));
    assert(text::spec_split(id, (" and ")@) + resolver::flatten_and(Seq::empty()) =~= seq![id]);
}

/// Every supported identifier's template opens with the shared attribution
/// line, so both placeholder tokens stand at its fixed positions and nowhere
/// earlier.
pub proof fn lemma_supported_template(id: Seq<char>)
    requires
        catalog::spec_supported(id),
    ensures
        catalog::template_or_empty(id).len() >= 46,
        occurs_at(catalog::template_or_empty(id), YEAR_TOKEN@, 36),
        occurs_at(catalog::template_or_empty(id), HOLDERS_TOKEN@, 14),
        forall|i: int| 0 <= i < 36 ==> !occurs_at(catalog::template_or_empty(id), YEAR_TOKEN@, i),
{
    if id == ("0bsd")@ {
        catalog::lemma_header_facts(catalog::BODY_0BSD@);
    } else if id == ("apache-2.0")@ || id == ("apache-v2.0")@ {
        catalog::lemma_header_facts(catalog::BODY_APACHE_2_0@);
    } else if id == ("apache-2.0 with llvm-exception")@ || id == ("apache-2.0-llvm")@ || id == (
    "apache-v2.0-llvm")@ {
        catalog::lemma_header_facts(catalog::BODY_APACHE_2_0_LLVM@);
    } else if id == ("artistic-2.0")@ || id == ("artistic-v2.0")@ {
        catalog::lemma_header_facts(catalog::BODY_ARTISTIC_2_0@);
    } else if id == ("bsd-2-clause")@ || id == ("bsd-2")@ {
        catalog::lemma_header_facts(catalog::BODY_BSD_2@);
    } else if id == ("bsd-3-clause")@ || id == ("bsd-3")@ {
        catalog::lemma_header_facts(catalog::BODY_BSD_3@);
    } else if id == ("epl-1.0")@ || id == ("epl-v1.0")@ {
        catalog::lemma_header_facts(catalog::BODY_EPL_1_0@);
    } else if id == ("agpl-3.0")@ || id == ("gnu-agpl-v3.0")@ {
        catalog::lemma_header_facts(catalog::BODY_AGPL_3_0@);
    } else if id == ("fdl-1.3")@ || id == ("gnu-fdl-v1.3")@ {
        catalog::lemma_header_facts(catalog::BODY_FDL_1_3@);
    } else if id == ("gpl-1.0")@ || id == ("gnu-gpl-v1.0")@ {
        catalog::lemma_header_facts(catalog::BODY_GPL_1_0@);
    } else if id == ("gpl-2.0")@ || id == ("gnu-gpl-v2.0")@ {
        catalog::lemma_header_facts(catalog::BODY_GPL_2_0@);
    } else if id == ("gpl-3.0")@ || id == ("gnu-gpl-v3.0")@ {
        catalog::lemma_header_facts(catalog::BODY_GPL_3_0@);
    } else if id == ("lgpl-2.1")@ || id == ("gnu-lgpl-v2.1")@ {
        catalog::lemma_header_facts(catalog::BODY_LGPL_2_1@);
    } else if id == ("lgpl-3.0")@ || id == ("gnu-lgpl-v3.0")@ {
        catalog::lemma_header_facts(catalog::BODY_LGPL_3_0@);
    } else if id == ("mit")@ {
        catalog::lemma_header_facts(catalog::BODY_MIT@);
    } else if id == ("mpl-2.0")@ || id == ("mpl-v2.0")@ {
        catalog::lemma_header_facts(catalog::BODY_MPL_2_0@);
    } else if id == ("unlicense")@ {
        catalog::lemma_header_facts(catalog::BODY_UNLICENSE@);
    } else if id == ("zlib")@ {
        catalog::lemma_header_facts(catalog::BODY_ZLIB@);
    } else if id == ("isc")@ {
        catalog::lemma_header_facts(catalog::BODY_ISC@);
    } else {
        assert(id == ("bsl-1.0")@);
        catalog::lemma_header_facts(catalog::BODY_BSL_1_0@);
    }
}

/// No character of the year's decimal rendering appears in the year token,
/// and the rendering of a four-digit year has exactly four characters.
proof fn lemma_year_digits_free(year: int)
    requires
        1000 <= year <= 9999,
    ensures
        numbers::spec_dec_int(year).len() == 4,
        !occurs(numbers::spec_dec_int(year), YEAR_TOKEN@),
        !YEAR_TOKEN@.contains(numbers::spec_dec_int(year)[0]),
        !YEAR_TOKEN@.contains(numbers::spec_dec_int(year)[3]),
{
    reveal_strlit("`<year>`");
    let rep = numbers::spec_dec_int(year);
    numbers::lemma_dec_four_digits(year);
    numbers::lemma_dec_nat_digits(year as nat);
    assert(YEAR_TOKEN@.len() == 8);
    assert forall|i: int| !occurs_at(rep, YEAR_TOKEN@, i) by {}
    assert forall|d: int| 0 <= d < 10 implies !YEAR_TOKEN@.contains(
        numbers::digit_char(d),
    ) by {
        if YEAR_TOKEN@.contains(numbers::digit_char(d)) {
            let j = choose|j: int|
                0 <= j < YEAR_TOKEN@.len() && YEAR_TOKEN@[j] == numbers::digit_char(d);
            assert(false);
        }
    }
    assert(rep == numbers::spec_dec_nat(year as nat));
    let d0 = choose|d: int| 0 <= d < 10 && rep[0] == numbers::digit_char(d);
    let d3 = choose|d: int| 0 <= d < 10 && rep[3] == numbers::digit_char(d);
    assert(!YEAR_TOKEN@.contains(rep[0]));
    assert(!YEAR_TOKEN@.contains(rep[3]));
}

/// Resolving one supported identifier with no author and a four-digit year
/// yields exactly one non-empty text; the year placeholder does not remain,
/// and the year's four decimal digits appear in the text.
pub proof fn lemma_resolve_supported(id: Seq<char>, year: int)
    requires
        catalog::spec_supported(id),
        1000 <= year <= 9999,
    ensures
        resolver::spec_resolve(id, Option::<Seq<char>>::None, year).len() == 1,
        resolver::spec_resolve(id, Option::<Seq<char>>::None, year)[0].len() > 0,
        !occurs(resolver::spec_resolve(id, Option::<Seq<char>>::None, year)[0], YEAR_TOKEN@),
        numbers::spec_dec_int(year).len() == 4,
        occurs(
            resolver::spec_resolve(id, Option::<Seq<char>>::None, year)[0],
            numbers::spec_dec_int(year),
        ),
{
    reveal_strlit("`<year>`");
    assert(YEAR_TOKEN@.len() == 8);
    lemma_supported_single_token(id);
    let toks = resolver::spec_tokens(id);
    assert(toks.len() == 1 && toks[0] == id);
    let texts = resolver::spec_resolve(id, Option::<Seq<char>>::None, year);
    assert(texts.len() == 1);
    assert(texts[0] == resolver::spec_resolve_token(id, Option::<Seq<char>>::None, year));
    let tpl = catalog::template_or_empty(id);
    let rep = numbers::spec_dec_int(year);
    lemma_supported_template(id);
    lemma_year_digits_free(year);
    text::lemma_replace_free(tpl, YEAR_TOKEN@, rep);
    text::lemma_replace_nonempty(tpl, YEAR_TOKEN@, rep);
    assert(occurs(tpl, YEAR_TOKEN@)) by {
        assert(occurs_at(tpl, YEAR_TOKEN@, 36));
    }
    text::lemma_replace_contains_rep(tpl, YEAR_TOKEN@, rep);
}

/// Resolving one supported identifier with an author string and a four-digit
/// year yields exactly one text in which the copyright-holders placeholder
/// does not remain: it has been replaced by the author's quoted rendering,
/// which appears in the text — verbatim between double quotes when the author
/// string holds no quote or backslash. The one family of author strings left
/// out is those whose own quoted rendering contains the placeholder, for then
/// the substituted text reintroduces it.
pub proof fn lemma_resolve_supported_author(id: Seq<char>, year: int, author: Seq<char>)
    requires
        catalog::spec_supported(id),
        1000 <= year <= 9999,
        !occurs(quoting::spec_quote(author), HOLDERS_TOKEN@),
    ensures
        resolver::spec_resolve(id, Some(author), year).len() == 1,
        !occurs(resolver::spec_resolve(id, Some(author), year)[0], HOLDERS_TOKEN@),
        occurs(resolver::spec_resolve(id, Some(author), year)[0], quoting::spec_quote(author)),
        (forall|k: int| 0 <= k < author.len() ==> author[k] != '"' && author[k] != '\\')
            ==> occurs(
            resolver::spec_resolve(id, Some(author), year)[0],
            seq!['"'] + author + seq!['"'],
        ),
{
    reveal_strlit("`<year>`");
    reveal_strlit("`<copyright holders>`");
    assert(YEAR_TOKEN@.len() == 8);
    lemma_supported_single_token(id);
    let texts = resolver::spec_resolve(id, Some(author), year);
    assert(texts.len() == 1);
    assert(texts[0] == resolver::spec_resolve_token(id, Some(author), year));
    let tpl = catalog::template_or_empty(id);
    let rep = numbers::spec_dec_int(year);
    let qa = quoting::spec_quote(author);
    let t1 = text::spec_replace(tpl, YEAR_TOKEN@, rep);
    lemma_supported_template(id);
    lemma_year_digits_free(year);
    assert(HOLDERS_TOKEN@.len() == 21);
    text::lemma_replace_at_first(tpl, YEAR_TOKEN@, rep, 36);
    assert(t1 == tpl.take(36) + rep + text::spec_replace(tpl.skip(44int), YEAR_TOKEN@, rep));
    assert(occurs_at(t1, HOLDERS_TOKEN@, 14)) by {
        assert(tpl.len() >= 46);
        assert(t1.subrange(14, 35) =~= HOLDERS_TOKEN@) by {
            assert forall|k: int| 0 <= k < 21 implies t1.subrange(14, 35)[k]
                == HOLDERS_TOKEN@[k] by {
                assert(t1[14 + k] == tpl.take(36)[14 + k]);
                assert(tpl.subrange(14, 35)[k] == tpl[14 + k]);
            }
        }
    }
    assert(qa.len() >= 2);
    assert(qa[0] == '"') by {
        assert((seq!['"'] + quoting::spec_escaped(author))[0] == '"');
    }
    assert(qa[qa.len() - 1] == '"');
    assert(!HOLDERS_TOKEN@.contains('"')) by {
        if HOLDERS_TOKEN@.contains('"') {
            let j = choose|j: int| 0 <= j < HOLDERS_TOKEN@.len() && HOLDERS_TOKEN@[j] == '"';
            assert(false);
        }
    }
    text::lemma_replace_free(t1, HOLDERS_TOKEN@, qa);
    assert(occurs(t1, HOLDERS_TOKEN@));
    text::lemma_replace_contains_rep(t1, HOLDERS_TOKEN@, qa);
    if forall|k: int| 0 <= k < author.len() ==> author[k] != '"' && author[k] != '\\' {
        quoting::lemma_quote_plain(author);
    }
}

/// A token the catalog does not know resolves to the empty text, whatever the
/// author and year.
pub proof fn lemma_resolve_unknown_empty(tok: Seq<char>, authors: Option<Seq<char>>, year: int)
    requires
        catalog::spec_template(tok) is None,
    ensures
        resolver::spec_resolve_token(tok, authors, year) == Seq::<char>::empty(),
{
    let empty = Seq::<char>::empty();
    assert(catalog::template_or_empty(tok) == empty);
    assert(text::spec_replace(empty, YEAR_TOKEN@, numbers::spec_dec_int(year)) == empty);
    match authors {
        Some(a) => {
            assert(text::spec_replace(empty, HOLDERS_TOKEN@, quoting::spec_quote(a)) == empty);
        },
        None => {},
    }
}

} // verus!

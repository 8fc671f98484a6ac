//! A deterministic quoted rendering of an author string: the text is wrapped
//! in double quotes, and embedded double quotes and backslashes are escaped
//! with a backslash.
use vstd::prelude::*;

verus! {

/// The escaped form of one character.
pub open spec fn escape_char(c: char) -> Seq<char> {
    if c == '"' || c == '\\' {
        seq!['\\', c]
    } else {
        seq![c]
    }
}

/// The escaped form of a character sequence.
pub open spec fn spec_escaped(s: Seq<char>) -> Seq<char>
    decreases s.len(),
{
    if s.len() == 0 {
        Seq::empty()
    } else {
        escape_char(s[0]) + spec_escaped(s.skip(1))
    }
}

/// The quoted rendering: escaped text wrapped in double quotes.
pub open spec fn spec_quote(s: Seq<char>) -> Seq<char> {
    seq!['"'] + spec_escaped(s) + seq!['"']
}

/// Escaping distributes over concatenation.
pub proof fn lemma_escaped_concat(a: Seq<char>, b: Seq<char>)
    ensures
        spec_escaped(a + b) == spec_escaped(a) + spec_escaped(b),
    decreases a.len(),
{
    if a.len() == 0 {
        assert(a + b =~= b);
        assert(spec_escaped(a) + spec_escaped(b) =~= spec_escaped(b));
    } else {
        lemma_escaped_concat(a.skip(1), b);
        assert((a + b).skip(1) =~= a.skip(1) + b);
        assert((a + b)[0] == a[0]);
        assert(escape_char(a[0]) + (spec_escaped(a.skip(1)) + spec_escaped(b)) =~= (escape_char(
            a[0],
        ) + spec_escaped(a.skip(1))) + spec_escaped(b));
    }
}

/// Text without quotes or backslashes is unchanged by escaping.
pub proof fn lemma_escaped_plain(s: Seq<char>)
    requires
        forall|k: int| 0 <= k < s.len() ==> s[k] != '"' && s[k] != '\\',
    ensures
        spec_escaped(s) == s,
    decreases s.len(),
{
    if s.len() == 0 {
        assert(spec_escaped(s) =~= s);
    } else {
        assert(forall|k: int|
            0 <= k < s.skip(1).len() ==> s.skip(1)[k] != '"' && s.skip(1)[k] != '\\');
        lemma_escaped_plain(s.skip(1));
        assert(escape_char(s[0]) + s.skip(1) =~= s);
    }
}

/// Text without quotes or backslashes is unchanged by escaping, so its quoted
/// rendering is the text between two double quotes.
pub proof fn lemma_quote_plain(s: Seq<char>)
    requires
        forall|k: int| 0 <= k < s.len() ==> s[k] != '"' && s[k] != '\\',
    ensures
        spec_quote(s) == seq!['"'] + s + seq!['"'],
{
    lemma_escaped_plain(s);
}

/// Builds the quoted rendering of `s`.
pub fn quote_str(s: &str) -> (r: String)
    ensures
        r@ == spec_quote(s@),
{
    proof {
        reveal_strlit("\"");
        reveal_strlit("\\");
        assert(("\"")@ =~= seq!['"']);
        assert(("\\")@ =~= seq!['\\']);
    }
    let mut out = String::from_str("\"");
    let n = s.unicode_len();
    let mut i: usize = 0;
    proof {
        assert(s@.take(0) =~= Seq::<char>::empty());
        assert(out@ =~= seq!['"'] + spec_escaped(s@.take(0)));
    }
    while i < n
        invariant
            i <= n,
            n == s@.len(),
            out@ == seq!['"'] + spec_escaped(s@.take(i as int)),
        decreases n - i,
    {
        let ghost pre = out@;
        let c = s.get_char(i);
        if c == '"' || c == '\\' {
            out.append("\\");
        }
        let piece = s.substring_char(i, i + 1);
        out.append(piece);
        proof {
            reveal_strlit("\\");
            assert(("\\")@ =~= seq!['\\']);
            assert(piece@ =~= seq![s@[i as int]]);
            assert(s@.take(i + 1) =~= s@.take(i as int) + seq![s@[i as int]]);
            lemma_escaped_concat(s@.take(i as int), seq![s@[i as int]]);
            assert(spec_escaped(seq![s@[i as int]]) == escape_char(s@[i as int]) + spec_escaped(
                seq![s@[i as int]].skip(1),
            ));
            assert(seq![s@[i as int]].skip(1) =~= Seq::<char>::empty());
            assert(spec_escaped(seq![s@[i as int]]) =~= escape_char(s@[i as int]));
            if c == '"' || c == '\\' {
                assert(out@ == (pre + ("\\")@) + piece@);
                assert((pre + seq!['\\']) + seq![s@[i as int]] =~= pre + seq![
                    '\\',
                    s@[i as int],
                ]);
                assert(out@ =~= pre + seq!['\\', s@[i as int]]);
            } else {
                assert(out@ =~= pre + seq![s@[i as int]]);
            }
            assert(out@ =~= seq!['"'] + spec_escaped(s@.take(i + 1)));
        }
        i += 1;
    }
    out.append("\"");
    proof {
        assert(s@.take(n as int) =~= s@);
        assert(out@ =~= spec_quote(s@));
    }
    out
}

} // verus!

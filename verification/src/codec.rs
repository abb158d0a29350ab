//! Character-level building blocks of the wire format: escaping of string
//! content, its inverse parser, and literal matching.  The wire format is the
//! JSON-shaped canonical form used by [`crate::room`] and by the event frames
//! of [`crate::session`].

use vstd::prelude::*;

verus! {

/// How one character of string content appears on the wire: quotes and
/// backslashes are preceded by a backslash, every other character stands as
/// itself.
pub open spec fn esc_char(c: char) -> Seq<char> {
    if c == '"' || c == '\\' {
        seq!['\\', c]
    } else {
        seq![c]
    }
}

/// The wire form of string content: each character escaped in turn.
pub open spec fn escape_seq(s: Seq<char>) -> Seq<char>
    decreases s.len(),
{
    if s.len() == 0 {
        Seq::empty()
    } else {
        esc_char(s[0]) + escape_seq(s.drop_first())
    }
}

/// Escaping distributes over appending one character at the end.
pub proof fn lemma_escape_push(s: Seq<char>, c: char)
    ensures
        escape_seq(s.push(c)) == escape_seq(s) + esc_char(c),
    decreases s.len(),
{
    if s.len() == 0 {
        assert(s.push(c).drop_first() =~= Seq::<char>::empty());
        assert(s.push(c)[0] == c);
        assert(escape_seq(Seq::<char>::empty()) == Seq::<char>::empty());
        assert(escape_seq(s.push(c)) == esc_char(c) + Seq::<char>::empty());
        assert(esc_char(c) + Seq::<char>::empty() =~= Seq::<char>::empty() + esc_char(c));
    } else {
        assert(s.push(c).drop_first() =~= s.drop_first().push(c));
        assert(s.push(c)[0] == s[0]);
        lemma_escape_push(s.drop_first(), c);
        assert(escape_seq(s.push(c)) == esc_char(s[0]) + (escape_seq(s.drop_first()) + esc_char(
            c,
        )));
        assert(esc_char(s[0]) + (escape_seq(s.drop_first()) + esc_char(c)) =~= (esc_char(s[0])
            + escape_seq(s.drop_first())) + esc_char(c));
    }
}

/// Appends the escaped form of `s` to `out`.
pub fn escape_into(s: &str, out: &mut String)
    ensures
        final(out)@ == old(out)@ + escape_seq(s@),
{
    let n = s.unicode_len();
    let mut i: usize = 0;
    while i < n
        invariant
            i <= n,
            n == s@.len(),
            out@ == old(out)@ + escape_seq(s@.take(i as int)),
        decreases n - i,
    {
        let c = s.get_char(i);
        proof {
            assert(s@.take(i + 1 as int) =~= s@.take(i as int).push(s@[i as int]));
            lemma_escape_push(s@.take(i as int), s@[i as int]);
        }
        if c == '"' {
            out.append("\\\"");
            proof {
                reveal_strlit("\\\"");
                assert(out@ =~= old(out)@ + escape_seq(s@.take(i + 1 as int)));
            }
        } else if c == '\\' {
            out.append("\\\\");
            proof {
                reveal_strlit("\\\\");
                assert(out@ =~= old(out)@ + escape_seq(s@.take(i + 1 as int)));
            }
        } else {
            out.append(s.substring_char(i, i + 1));
            proof {
                assert(s@.subrange(i as int, i + 1 as int) =~= seq![s@[i as int]]);
                assert(out@ =~= old(out)@ + escape_seq(s@.take(i + 1 as int)));
            }
        }
        i = i + 1;
    }
    proof {
        assert(s@.take(n as int) =~= s@);
    }
}

/// Parses escaped string content from the front of `s` up to an unescaped
/// closing quote: returns the content and what follows the quote, or nothing
/// if the content is malformed or the quote never comes.
pub open spec fn spec_parse_string(s: Seq<char>) -> Option<(Seq<char>, Seq<char>)>
    decreases s.len(),
{
    if s.len() == 0 {
        None
    } else if s[0] == '"' {
        Some((Seq::empty(), s.drop_first()))
    } else if s[0] == '\\' {
        if s.len() >= 2 && (s[1] == '"' || s[1] == '\\') {
            match spec_parse_string(s.skip(2)) {
                Some(p) => Some((seq![s[1]] + p.0, p.1)),
                None => None,
            }
        } else {
            None
        }
    } else {
        match spec_parse_string(s.drop_first()) {
            Some(p) => Some((seq![s[0]] + p.0, p.1)),
            None => None,
        }
    }
}

/// Round trip of string content: escaped content followed by the closing
/// quote and anything at all parses back to exactly that content, leaving the
/// trailing part untouched.
pub proof fn lemma_parse_escaped(x: Seq<char>, tail: Seq<char>)
    ensures
        spec_parse_string(escape_seq(x) + seq!['"'] + tail) == Some((x, tail)),
    decreases x.len(),
{
    let s = escape_seq(x) + seq!['"'] + tail;
    if x.len() == 0 {
        assert(s =~= seq!['"'] + tail);
        assert(s[0] == '"');
        assert(s.drop_first() =~= tail);
        assert(spec_parse_string(s) == Some((Seq::<char>::empty(), tail)));
        assert(x =~= Seq::<char>::empty());
    } else {
        let c = x[0];
        let x1 = x.drop_first();
        lemma_parse_escaped(x1, tail);
        let inner = escape_seq(x1) + seq!['"'] + tail;
        if c == '"' || c == '\\' {
            assert(escape_seq(x) =~= seq!['\\', c] + escape_seq(x1));
            assert(s =~= seq!['\\', c] + inner);
            assert(s[0] == '\\');
            assert(s[1] == c);
            assert(s.len() >= 2);
            assert(s.skip(2) =~= inner);
            assert(seq![c] + x1 =~= x);
        } else {
            assert(escape_seq(x) =~= seq![c] + escape_seq(x1));
            assert(s =~= seq![c] + inner);
            assert(s[0] == c);
            assert(s.drop_first() =~= inner);
            assert(seq![c] + x1 =~= x);
        }
    }
}

/// Parses escaped string content of `s` from character position `start` up to
/// an unescaped closing quote.  On success the position returned is the one
/// right after that quote.
pub fn parse_string_body(s: &str, start: usize) -> (r: Option<(String, usize)>)
    requires
        start <= s@.len(),
    ensures
        match r {
            Some(p) => {
                &&& spec_parse_string(s@.skip(start as int)) == Some(
                    (p.0@, s@.skip(p.1 as int)),
                )
                &&& start < p.1 <= s@.len()
            },
            None => spec_parse_string(s@.skip(start as int)) is None,
        },
{
    let n = s.unicode_len();
    let mut i: usize = start;
    let mut acc = String::new();
    while i < n
        invariant
            start <= i <= n,
            n == s@.len(),
            spec_parse_string(s@.skip(start as int)) == (match spec_parse_string(
                s@.skip(i as int),
            ) {
                Some(p) => Some((acc@ + p.0, p.1)),
                None => None,
            }),
        decreases n - i,
    {
        let ghost cur = s@.skip(i as int);
        proof {
            assert(cur.len() == n - i);
            assert(cur[0] == s@[i as int]);
        }
        let c = s.get_char(i);
        if c == '"' {
            proof {
                assert(cur.drop_first() =~= s@.skip(i + 1 as int));
                assert(acc@ + Seq::<char>::empty() =~= acc@);
            }
            return Some((acc, i + 1));
        } else if c == '\\' {
            if i + 1 < n {
                let ghost acc0 = acc@;
                let c2 = s.get_char(i + 1);
                proof {
                    assert(cur[1] == s@[i + 1 as int]);
                }
                if c2 == '"' || c2 == '\\' {
                    acc.append(s.substring_char(i + 1, i + 2));
                    proof {
                        assert(s@.subrange(i + 1 as int, i + 2 as int) =~= seq![c2]);
                        assert(cur.skip(2) =~= s@.skip(i + 2 as int));
                        match spec_parse_string(s@.skip(i + 2 as int)) {
                            Some(p) => {
                                assert(acc0 + (seq![c2] + p.0) =~= acc@ + p.0);
                            },
                            None => {},
                        }
                    }
                    i = i + 2;
                } else {
                    return None;
                }
            } else {
                proof {
                    assert(cur.len() == 1);
                }
                return None;
            }
        } else {
            let ghost acc0 = acc@;
            acc.append(s.substring_char(i, i + 1));
            proof {
                assert(s@.subrange(i as int, i + 1 as int) =~= seq![c]);
                assert(cur.drop_first() =~= s@.skip(i + 1 as int));
                match spec_parse_string(s@.skip(i + 1 as int)) {
                    Some(p) => {
                        assert(acc0 + (seq![c] + p.0) =~= acc@ + p.0);
                    },
                    None => {},
                }
            }
            i = i + 1;
        }
    }
    proof {
        assert(s@.skip(i as int).len() == 0);
    }
    None
}

/// Checks that the characters of `s` from position `i` on start with the
/// literal `lit`; on success returns the position right after it.
pub fn expect_lit(s: &str, i: usize, lit: &str) -> (r: Option<usize>)
    requires
        i <= s@.len(),
    ensures
        match r {
            Some(j) => {
                &&& j == i + lit@.len()
                &&& j <= s@.len()
                &&& s@.subrange(i as int, j as int) == lit@
            },
            None => !(i + lit@.len() <= s@.len() && s@.subrange(i as int, i + lit@.len()) == lit@),
        },
{
    let n = s.unicode_len();
    let m = lit.unicode_len();
    if m > n - i {
        return None;
    }
    let mut k: usize = 0;
    while k < m
        invariant
            0 <= k <= m,
            m == lit@.len(),
            n == s@.len(),
            i + m <= n,
            forall|j: int| 0 <= j < k ==> s@[i + j] == lit@[j],
        decreases m - k,
    {
        let cs = s.get_char(i + k);
        let cl = lit.get_char(k);
        if cs != cl {
            proof {
                assert(s@.subrange(i as int, i + m as int)[k as int] != lit@[k as int]);
            }
            return None;
        }
        k = k + 1;
    }
    proof {
        assert(s@.subrange(i as int, i + m as int) =~= lit@);
    }
    Some(i + m)
}

/// Strips the literal `lit` from the front of `s`, if it stands there.
pub open spec fn strip_lit(s: Seq<char>, lit: Seq<char>) -> Option<Seq<char>> {
    if lit.len() <= s.len() && s.take(lit.len() as int) == lit {
        Some(s.skip(lit.len() as int))
    } else {
        None
    }
}

/// Stripping a literal off text that starts with it leaves exactly the rest.
pub proof fn lemma_strip_lit_prefix(lit: Seq<char>, rest: Seq<char>)
    ensures
        strip_lit(lit + rest, lit) == Some(rest),
{
    assert((lit + rest).take(lit.len() as int) =~= lit);
    assert((lit + rest).skip(lit.len() as int) =~= rest);
}

/// `expect_lit` decides exactly `strip_lit` on the character suffix.
pub proof fn lemma_expect_strip(s: Seq<char>, i: int, lit: Seq<char>, j: int)
    requires
        0 <= i <= s.len(),
        j == i + lit.len() <= s.len(),
        s.subrange(i, j) == lit,
    ensures
        strip_lit(s.skip(i), lit) == Some(s.skip(j)),
{
    assert(s.skip(i).take(lit.len() as int) =~= s.subrange(i, j));
    assert(s.skip(i).skip(lit.len() as int) =~= s.skip(j));
}

/// The complement: where the literal does not stand at `i`, `strip_lit` on
/// the suffix refuses too.
pub proof fn lemma_expect_strip_none(s: Seq<char>, i: int, lit: Seq<char>)
    requires
        0 <= i <= s.len(),
        !(i + lit.len() <= s.len() && s.subrange(i, i + lit.len()) == lit),
    ensures
        strip_lit(s.skip(i), lit) is None,
{
    if i + lit.len() <= s.len() {
        assert(s.skip(i).take(lit.len() as int) =~= s.subrange(i, i + lit.len()));
        if s.skip(i).take(lit.len() as int) == lit {
            assert(s.subrange(i, i + lit.len()) == lit);
        }
    }
}

} // verus!

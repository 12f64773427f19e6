//! The template engine: expansion of the year placeholder and the compiled
//! header pattern.
//!
//! A header template is ordinary text that may contain the placeholder
//! `{{YEAR}}`.  Expanding a template replaces every placeholder occurrence,
//! found left to right, with the four-character stand-in `2000`; the expanded
//! length is what sizes the probe read from the front of a file.  The
//! compiled pattern matches a file prefix when the template's literal text
//! matches character for character and every placeholder site carries exactly
//! four decimal digits; the strict form also demands a line terminator
//! (`\n` or `\r\n`) immediately after the matched text.

use vstd::prelude::*;

verus! {

/// Holds when the placeholder token `{{YEAR}}` occurs in `s` starting at
/// position `i`.
pub open spec fn is_placeholder_at(s: Seq<char>, i: int) -> bool {
    &&& 0 <= i
    &&& i + 8 <= s.len()
    &&& s[i] == '{'
    &&& s[i + 1] == '{'
    &&& s[i + 2] == 'Y'
    &&& s[i + 3] == 'E'
    &&& s[i + 4] == 'A'
    &&& s[i + 5] == 'R'
    &&& s[i + 6] == '}'
    &&& s[i + 7] == '}'
}

/// Holds when `s` contains no placeholder occurrence at all.
pub open spec fn placeholder_free(s: Seq<char>) -> bool {
    forall|i: int| !is_placeholder_at(s, i)
}

/// The template with every placeholder occurrence, found left to right,
/// replaced by the stand-in `2000`.
pub open spec fn expand_year(s: Seq<char>) -> Seq<char>
    decreases s.len(),
{
    if s.len() == 0 {
        Seq::empty()
    } else if is_placeholder_at(s, 0) {
        seq!['2', '0', '0', '0'] + expand_year(s.skip(8))
    } else {
        seq![s[0]] + expand_year(s.skip(1))
    }
}

/// Holds when `c` is a decimal digit.
pub open spec fn is_digit(c: char) -> bool {
    '0' <= c && c <= '9'
}

/// Holds when the template `t` matches a prefix of the content `c`: literal
/// template text character for character, and exactly four decimal digits at
/// every placeholder site.
pub open spec fn lit_matches(t: Seq<char>, c: Seq<char>) -> bool
    decreases t.len(),
{
    if t.len() == 0 {
        true
    } else if is_placeholder_at(t, 0) {
        &&& c.len() >= 4
        &&& is_digit(c[0])
        &&& is_digit(c[1])
        &&& is_digit(c[2])
        &&& is_digit(c[3])
        &&& lit_matches(t.skip(8), c.skip(4))
    } else {
        &&& c.len() >= 1
        &&& c[0] == t[0]
        &&& lit_matches(t.skip(1), c.skip(1))
    }
}

/// Holds when the content `c` begins with the header described by the
/// template `t`, immediately followed by a line terminator (`\n` or `\r\n`).
pub open spec fn strict_matches(t: Seq<char>, c: Seq<char>) -> bool {
    let n = expand_year(t).len() as int;
    &&& lit_matches(t, c)
    &&& ((c.len() > n && c[n] == '\n') || (c.len() > n + 1 && c[n] == '\r' && c[n + 1]
        == '\n'))
}

/// The number of characters a strict match consumes: the expanded template
/// length plus the line terminator, with `\n` preferred over `\r\n`.
pub open spec fn strict_match_len(t: Seq<char>, c: Seq<char>) -> int {
    let n = expand_year(t).len() as int;
    if c.len() > n && c[n] == '\n' {
        n + 1
    } else {
        n + 2
    }
}

/// The content with its leading header stripped, terminator included, when
/// the strict pattern matches; the content unchanged otherwise.
pub open spec fn remove_first_header(t: Seq<char>, c: Seq<char>) -> Seq<char> {
    if strict_matches(t, c) {
        c.skip(strict_match_len(t, c))
    } else {
        c
    }
}

/// Decides whether the placeholder token occurs in `s` at character
/// position `i`.
fn placeholder_at(s: &str, i: usize, n: usize) -> (b: bool)
    requires
        n == s@.len(),
        i <= n,
    ensures
        b == is_placeholder_at(s@, i as int),
{
    if n - i < 8 {
        return false;
    }
    s.get_char(i) == '{' && s.get_char(i + 1) == '{' && s.get_char(i + 2) == 'Y' && s.get_char(
        i + 3,
    ) == 'E' && s.get_char(i + 4) == 'A' && s.get_char(i + 5) == 'R' && s.get_char(i + 6) == '}'
        && s.get_char(i + 7) == '}'
}

/// Builds the expansion of a template: every placeholder occurrence, found
/// left to right, becomes the stand-in `2000`.
pub(crate) fn expand_template(s: &str) -> (r: String)
    ensures
        r@ == expand_year(s@),
{
    let n = s.unicode_len();
    let mut out = String::new();
    let mut i: usize = 0;
    proof {
        assert(s@.skip(0) =~= s@);
    }
    while i < n
        invariant
            i <= n,
            n == s@.len(),
            expand_year(s@) == out@ + expand_year(s@.skip(i as int)),
        decreases n - i,
    {
        if placeholder_at(s, i, n) {
            proof {
                assert(is_placeholder_at(s@.skip(i as int), 0));
                assert(s@.skip(i as int).skip(8) =~= s@.skip(i as int + 8));
                reveal_strlit("2000");
                assert("2000"@ =~= seq!['2', '0', '0', '0']);
            }
            out.append("2000");
            proof {
                assert(expand_year(s@) =~= out@ + expand_year(s@.skip(i as int + 8)));
            }
            i = i + 8;
        } else {
            let piece = s.substring_char(i, i + 1);
            proof {
                assert(!is_placeholder_at(s@.skip(i as int), 0)) by {
                    if is_placeholder_at(s@.skip(i as int), 0) {
                        assert(is_placeholder_at(s@, i as int));
                    }
                }
                assert(s@.skip(i as int).skip(1) =~= s@.skip(i as int + 1));
                assert(piece@ =~= seq![s@[i as int]]);
            }
            out.append(piece);
            proof {
                assert(expand_year(s@) =~= out@ + expand_year(s@.skip(i as int + 1)));
            }
            i = i + 1;
        }
    }
    proof {
        assert(s@.skip(n as int) =~= Seq::<char>::empty());
        assert(out@ =~= expand_year(s@));
    }
    out
}

/// Decides whether `ch` is a decimal digit.
fn digit(ch: char) -> (b: bool)
    ensures
        b == is_digit(ch),
{
    '0' <= ch && ch <= '9'
}

/// Decides whether the template matches a prefix of the content, with four
/// decimal digits standing at every placeholder site.
pub(crate) fn lit_match(t: &str, c: &str) -> (b: bool)
    ensures
        b == lit_matches(t@, c@),
{
    let tn = t.unicode_len();
    let cn = c.unicode_len();
    let mut ti: usize = 0;
    let mut ci: usize = 0;
    proof {
        assert(t@.skip(0) =~= t@);
        assert(c@.skip(0) =~= c@);
    }
    loop
        invariant
            ti <= tn,
            ci <= cn,
            tn == t@.len(),
            cn == c@.len(),
            lit_matches(t@, c@) == lit_matches(t@.skip(ti as int), c@.skip(ci as int)),
        decreases tn - ti,
    {
        if ti == tn {
            proof {
                assert(t@.skip(ti as int).len() == 0);
            }
            return true;
        }
        if placeholder_at(t, ti, tn) {
            proof {
                assert(is_placeholder_at(t@.skip(ti as int), 0));
            }
            if cn - ci < 4 {
                proof {
                    assert(c@.skip(ci as int).len() < 4);
                }
                return false;
            }
            let ok = digit(c.get_char(ci)) && digit(c.get_char(ci + 1)) && digit(
                c.get_char(ci + 2),
            ) && digit(c.get_char(ci + 3));
            proof {
                assert(c@.skip(ci as int)[0] == c@[ci as int]);
                assert(c@.skip(ci as int)[1] == c@[ci as int + 1]);
                assert(c@.skip(ci as int)[2] == c@[ci as int + 2]);
                assert(c@.skip(ci as int)[3] == c@[ci as int + 3]);
            }
            if !ok {
                return false;
            }
            proof {
                assert(t@.skip(ti as int).skip(8) =~= t@.skip(ti as int + 8));
                assert(c@.skip(ci as int).skip(4) =~= c@.skip(ci as int + 4));
            }
            ti = ti + 8;
            ci = ci + 4;
        } else {
            proof {
                assert(!is_placeholder_at(t@.skip(ti as int), 0)) by {
                    if is_placeholder_at(t@.skip(ti as int), 0) {
                        assert(is_placeholder_at(t@, ti as int));
                    }
                }
            }
            if ci == cn {
                proof {
                    assert(c@.skip(ci as int).len() == 0);
                }
                return false;
            }
            if c.get_char(ci) != t.get_char(ti) {
                proof {
                    assert(c@.skip(ci as int)[0] == c@[ci as int]);
                    assert(t@.skip(ti as int)[0] == t@[ti as int]);
                }
                return false;
            }
            proof {
                assert(t@.skip(ti as int).skip(1) =~= t@.skip(ti as int + 1));
                assert(c@.skip(ci as int).skip(1) =~= c@.skip(ci as int + 1));
            }
            ti = ti + 1;
            ci = ci + 1;
        }
    }
}

/// Every placeholder occurrence in `t` after the first character is an
/// occurrence in `t.drop_first()`, so a placeholder-free template stays
/// placeholder-free when its first character is dropped.
proof fn lemma_placeholder_free_drop_first(t: Seq<char>)
    requires
        placeholder_free(t),
        t.len() > 0,
    ensures
        placeholder_free(t.drop_first()),
{
    assert forall|i: int| !is_placeholder_at(t.drop_first(), i) by {
        if is_placeholder_at(t.drop_first(), i) {
            assert(t.drop_first()[i] == t[i + 1]);
            assert(t.drop_first()[i + 1] == t[i + 2]);
            assert(t.drop_first()[i + 2] == t[i + 3]);
            assert(t.drop_first()[i + 3] == t[i + 4]);
            assert(t.drop_first()[i + 4] == t[i + 5]);
            assert(t.drop_first()[i + 5] == t[i + 6]);
            assert(t.drop_first()[i + 6] == t[i + 7]);
            assert(t.drop_first()[i + 7] == t[i + 8]);
            assert(is_placeholder_at(t, i + 1));
        }
    }
}

/// A template without a placeholder expands to itself.
pub proof fn lemma_expand_identity(t: Seq<char>)
    requires
        placeholder_free(t),
    ensures
        expand_year(t) == t,
    decreases t.len(),
{
    if t.len() == 0 {
        assert(expand_year(t) =~= t);
    } else {
        assert(!is_placeholder_at(t, 0));
        lemma_placeholder_free_drop_first(t);
        lemma_expand_identity(t.drop_first());
        assert(t.skip(1) =~= t.drop_first());
        assert(expand_year(t) =~= seq![t[0]] + t.drop_first());
        assert(seq![t[0]] + t.drop_first() =~= t);
    }
}

/// A template without a placeholder matches itself character for
/// character, whatever text follows it.
pub proof fn lemma_lit_matches_self(t: Seq<char>, rest: Seq<char>)
    requires
        placeholder_free(t),
    ensures
        lit_matches(t, t + rest),
    decreases t.len(),
{
    if t.len() == 0 {
    } else {
        assert(!is_placeholder_at(t, 0));
        lemma_placeholder_free_drop_first(t);
        lemma_lit_matches_self(t.drop_first(), rest);
        assert((t + rest)[0] == t[0]);
        assert((t + rest).skip(1) =~= t.drop_first() + rest);
        assert(t.skip(1) =~= t.drop_first());
    }
}

/// The characters of the placeholder token `{{YEAR}}`.
pub open spec fn placeholder_seq() -> Seq<char> {
    seq!['{', '{', 'Y', 'E', 'A', 'R', '}', '}']
}

/// The placeholder token cannot overlap itself: when fewer than eight
/// characters stand before a placeholder token, no placeholder occurrence
/// starts at the front of the text.
proof fn lemma_no_overlap(a: Seq<char>, tail: Seq<char>)
    requires
        1 <= a.len() < 8,
    ensures
        !is_placeholder_at(a + placeholder_seq() + tail, 0),
{
    let t = a + placeholder_seq() + tail;
    let m = a.len() as int;
    if is_placeholder_at(t, 0) {
        if m == 1 {
            assert(t[2] == placeholder_seq()[1]);
            assert(placeholder_seq()[1] == '{');
        } else {
            assert(t[m] == placeholder_seq()[0]);
            assert(placeholder_seq()[0] == '{');
        }
        assert(false);
    }
}

/// Law: the year slot is a wildcard over exactly four decimal digits.  For
/// a template made of a placeholder-free prefix, the placeholder token and
/// any remainder, content carrying the same prefix, any four decimal digits
/// and a remainder matched by the template's remainder is matched, whatever
/// the four digits are.
pub proof fn lemma_year_wildcard(a: Seq<char>, b: Seq<char>, y: Seq<char>, rest: Seq<char>)
    requires
        placeholder_free(a),
        y.len() == 4,
        is_digit(y[0]),
        is_digit(y[1]),
        is_digit(y[2]),
        is_digit(y[3]),
        lit_matches(b, rest),
    ensures
        lit_matches(a + placeholder_seq() + b, a + y + rest),
    decreases a.len(),
{
    let t = a + placeholder_seq() + b;
    let c = a + y + rest;
    if a.len() == 0 {
        assert(is_placeholder_at(t, 0));
        assert(c[0] == y[0]);
        assert(c[1] == y[1]);
        assert(c[2] == y[2]);
        assert(c[3] == y[3]);
        assert(t.skip(8) =~= b);
        assert(c.skip(4) =~= rest);
    } else {
        if a.len() < 8 {
            lemma_no_overlap(a, b);
        } else {
            if is_placeholder_at(t, 0) {
                assert(is_placeholder_at(a, 0));
                assert(false);
            }
        }
        assert(!is_placeholder_at(t, 0));
        lemma_placeholder_free_drop_first(a);
        lemma_year_wildcard(a.drop_first(), b, y, rest);
        assert(t[0] == a[0]);
        assert(c[0] == a[0]);
        assert(t.skip(1) =~= a.drop_first() + placeholder_seq() + b);
        assert(c.skip(1) =~= a.drop_first() + y + rest);
    }
}

/// Expansion replaces the placeholder and keeps the text around it: for a
/// placeholder-free prefix, the template made of that prefix, a placeholder
/// token and a remainder expands to the prefix, the stand-in `2000` and the
/// expanded remainder.
pub proof fn lemma_expand_concat(a: Seq<char>, b: Seq<char>)
    requires
        placeholder_free(a),
    ensures
        expand_year(a + placeholder_seq() + b) =~= a + seq!['2', '0', '0', '0'] + expand_year(b),
    decreases a.len(),
{
    let t = a + placeholder_seq() + b;
    if a.len() == 0 {
        assert(is_placeholder_at(t, 0));
        assert(t.skip(8) =~= b);
        assert(expand_year(t) =~= a + seq!['2', '0', '0', '0'] + expand_year(b));
    } else {
        if a.len() < 8 {
            lemma_no_overlap(a, b);
        } else {
            if is_placeholder_at(t, 0) {
                assert(is_placeholder_at(a, 0));
                assert(false);
            }
        }
        assert(!is_placeholder_at(t, 0));
        lemma_placeholder_free_drop_first(a);
        lemma_expand_concat(a.drop_first(), b);
        assert(t.skip(1) =~= a.drop_first() + placeholder_seq() + b);
        assert(t[0] == a[0]);
        assert(expand_year(t) =~= seq![t[0]] + expand_year(t.skip(1)));
        assert(seq![a[0]] + (a.drop_first() + seq!['2', '0', '0', '0'] + expand_year(b)) =~= a
            + seq!['2', '0', '0', '0'] + expand_year(b));
    }
}

/// Law: the check accepts any four-digit year; the year is wildcarded, not
/// validated.  For a template of a placeholder-free prefix and a final
/// placeholder token, content made of the prefix, any four decimal digits
/// and a line terminator carries the header.
pub proof fn lemma_check_accepts_any_year(a: Seq<char>, y: Seq<char>, rest: Seq<char>)
    requires
        placeholder_free(a),
        y.len() == 4,
        is_digit(y[0]),
        is_digit(y[1]),
        is_digit(y[2]),
        is_digit(y[3]),
        rest.len() > 0,
        rest[0] == '\n' || (rest.len() > 1 && rest[0] == '\r' && rest[1] == '\n'),
    ensures
        strict_matches(a + placeholder_seq(), a + y + rest),
{
    let t = a + placeholder_seq();
    let c = a + y + rest;
    lemma_year_wildcard(a, Seq::empty(), y, rest);
    assert(a + placeholder_seq() + Seq::<char>::empty() =~= t);
    assert(lit_matches(t, c));
    lemma_expand_concat(a, Seq::empty());
    assert(expand_year(Seq::<char>::empty()) =~= Seq::<char>::empty());
    assert(expand_year(t).len() == a.len() + 4);
    let n = a.len() as int + 4;
    assert(c[n] == rest[0]);
    assert(rest.len() > 1 ==> c[n + 1] == rest[1]);
}

/// Law: only four-digit runs can fill the year slot.  Whenever a template
/// of a placeholder-free prefix, a placeholder token and a remainder
/// matches some content, the four characters at the year slot are all
/// decimal digits; content with anything else there never matches.
pub proof fn lemma_match_requires_digits(a: Seq<char>, b: Seq<char>, c: Seq<char>)
    requires
        placeholder_free(a),
        lit_matches(a + placeholder_seq() + b, c),
    ensures
        c.len() >= a.len() + 4,
        is_digit(c[a.len() as int]),
        is_digit(c[a.len() as int + 1]),
        is_digit(c[a.len() as int + 2]),
        is_digit(c[a.len() as int + 3]),
    decreases a.len(),
{
    let t = a + placeholder_seq() + b;
    if a.len() == 0 {
        assert(is_placeholder_at(t, 0));
    } else {
        if a.len() < 8 {
            lemma_no_overlap(a, b);
        } else {
            if is_placeholder_at(t, 0) {
                assert(is_placeholder_at(a, 0));
                assert(false);
            }
        }
        assert(!is_placeholder_at(t, 0));
        lemma_placeholder_free_drop_first(a);
        assert(t.skip(1) =~= a.drop_first() + placeholder_seq() + b);
        lemma_match_requires_digits(a.drop_first(), b, c.skip(1));
        assert(c.skip(1)[a.len() as int - 1] == c[a.len() as int]);
        assert(c.skip(1)[a.len() as int] == c[a.len() as int + 1]);
        assert(c.skip(1)[a.len() as int + 1] == c[a.len() as int + 2]);
        assert(c.skip(1)[a.len() as int + 2] == c[a.len() as int + 3]);
    }
}

/// A header template compiled for matching: the template text itself, with
/// matching defined by [`strict_matches`] over its characters.
pub struct HeaderPattern {
    template: String,
}

impl HeaderPattern {
    /// The characters of the template this pattern was compiled from.
    pub closed spec fn template_view(&self) -> Seq<char> {
        self.template@
    }

    /// Decides whether the content begins with the header, terminator
    /// included.
    pub fn is_match(&self, content: &str) -> (b: bool)
        ensures
            b == strict_matches(self.template_view(), content@),
    {
        self.match_len(content).is_some()
    }

    /// The number of leading characters of `content` covered by the header,
    /// terminator included, or `None` when the content does not begin with
    /// the header.
    pub fn match_len(&self, content: &str) -> (r: Option<usize>)
        ensures
            match r {
                Some(m) => strict_matches(self.template_view(), content@) && m
                    == strict_match_len(self.template_view(), content@),
                None => !strict_matches(self.template_view(), content@),
            },
    {
        if !lit_match(self.template.as_str(), content) {
            return None;
        }
        let expanded = expand_template(self.template.as_str());
        let n = expanded.as_str().unicode_len();
        let cn = content.unicode_len();
        if n >= cn {
            return None;
        }
        let c0 = content.get_char(n);
        if c0 == '\n' {
            return Some(n + 1);
        }
        if c0 == '\r' && n + 1 < cn && content.get_char(n + 1) == '\n' {
            return Some(n + 2);
        }
        None
    }
}

/// Compiles a header template into its matching pattern.
pub fn compile_pattern(header: &str) -> (p: HeaderPattern)
    ensures
        p.template_view() == header@,
{
    HeaderPattern { template: String::from_str(header) }
}

} // verus!

//! The small JSON dialect the config store writes and reads: objects with
//! fixed keys, strings with backslash escapes, and `null`.
//!
//! Rendering and parsing are both specified as functions on character
//! sequences, and parsing is proved to invert rendering, which is what the
//! save-then-load round trip rests on.

use vstd::prelude::*;
use vstd::string::StrSliceExecFns;

use crate::text::drop_while_start;
use crate::text::is_space;
use crate::text::is_space_char;
use crate::text::push_char;

verus! {

/// How a character appears inside a rendered JSON string: the quote, the
/// backslash and the three control characters we emit are escaped, every
/// other character stands as itself.
pub open spec fn escape_char(c: char) -> Seq<char> {
    if c == '"' {
        seq!['\\', '"']
    } else if c == '\\' {
        seq!['\\', '\\']
    } else if c == '\n' {
        seq!['\\', 'n']
    } else if c == '\r' {
        seq!['\\', 'r']
    } else if c == '\t' {
        seq!['\\', 't']
    } else {
        seq![c]
    }
}

/// A whole string value, escaped character by character.
pub open spec fn escape_string(v: Seq<char>) -> Seq<char>
    decreases v.len(),
{
    if v.len() == 0 {
        Seq::<char>::empty()
    } else {
        escape_char(v[0]) + escape_string(v.drop_first())
    }
}

/// What a backslash escape denotes; anything not in the table is rejected.
pub open spec fn unescape_char(c: char) -> Option<char> {
    if c == '"' {
        Some('"')
    } else if c == '\\' {
        Some('\\')
    } else if c == 'n' {
        Some('\n')
    } else if c == 'r' {
        Some('\r')
    } else if c == 't' {
        Some('\t')
    } else {
        None
    }
}

/// Parse the inside of a quoted string, starting after the opening quote:
/// the decoded value and what follows the closing quote.
pub open spec fn parse_string_body(s: Seq<char>) -> Option<(Seq<char>, Seq<char>)>
    decreases s.len(),
{
    if s.len() == 0 {
        None
    } else if s[0] == '"' {
        Some((Seq::<char>::empty(), s.drop_first()))
    } else if s[0] == '\\' {
        if s.len() < 2 {
            None
        } else {
            match unescape_char(s[1]) {
                Some(u) => match parse_string_body(s.skip(2)) {
                    Some(p) => Some((seq![u] + p.0, p.1)),
                    None => None,
                },
                None => None,
            }
        }
    } else {
        match parse_string_body(s.drop_first()) {
            Some(p) => Some((seq![s[0]] + p.0, p.1)),
            None => None,
        }
    }
}

/// A parse result with `prefix` prepended to the decoded value.
pub open spec fn pbs_extend(prefix: Seq<char>, r: Option<(Seq<char>, Seq<char>)>) -> Option<
    (Seq<char>, Seq<char>),
> {
    match r {
        Some(p) => Some((prefix + p.0, p.1)),
        None => None,
    }
}

proof fn lemma_pbs_assoc(a: Seq<char>, b: Seq<char>, r: Option<(Seq<char>, Seq<char>)>)
    ensures
        pbs_extend(a + b, r) == pbs_extend(a, pbs_extend(b, r)),
{
    match r {
        Some(p) => {
            assert((a + b) + p.0 =~= a + (b + p.0));
        },
        None => {},
    }
}

/// Escaping one more character appends its escape.
proof fn lemma_escape_append(v: Seq<char>, c: char)
    ensures
        escape_string(v.push(c)) == escape_string(v) + escape_char(c),
    decreases v.len(),
{
    if v.len() == 0 {
        assert(v.push(c)[0] == c);
        assert(v.push(c).drop_first() =~= Seq::<char>::empty());
        assert(escape_string(Seq::<char>::empty()) == Seq::<char>::empty());
        assert(escape_string(v.push(c)) == escape_char(c) + escape_string(
            v.push(c).drop_first(),
        ));
        assert(escape_char(c) + Seq::<char>::empty() =~= escape_char(c));
        assert(Seq::<char>::empty() + escape_char(c) =~= escape_char(c));
    } else {
        assert(v.push(c)[0] == v[0]);
        assert(v.push(c).drop_first() =~= v.drop_first().push(c));
        assert(escape_string(v.push(c)) == escape_char(v[0]) + escape_string(
            v.push(c).drop_first(),
        ));
        lemma_escape_append(v.drop_first(), c);
        assert(escape_char(v[0]) + (escape_string(v.drop_first()) + escape_char(c)) =~= (escape_char(
            v[0],
        ) + escape_string(v.drop_first())) + escape_char(c));
    }
}

/// Parsing undoes escaping: after the escaped value and its closing quote,
/// parsing yields the value and the rest untouched.
pub proof fn lemma_string_round_trip(v: Seq<char>, rest: Seq<char>)
    ensures
        parse_string_body(escape_string(v) + seq!['"'] + rest) == Some((v, rest)),
    decreases v.len(),
{
    let s = escape_string(v) + seq!['"'] + rest;
    if v.len() == 0 {
        assert(s[0] == '"');
        assert(s.drop_first() =~= rest);
        assert(Seq::<char>::empty() =~= v);
    } else {
        let c = v[0];
        let tail = escape_string(v.drop_first()) + seq!['"'] + rest;
        lemma_string_round_trip(v.drop_first(), rest);
        if c == '"' || c == '\\' || c == '\n' || c == '\r' || c == '\t' {
            assert(escape_char(c).len() == 2);
            assert(s[0] == escape_char(c)[0]);
            assert(s[1] == escape_char(c)[1]);
            assert(s[0] == '\\');
            assert(unescape_char(s[1]) == Some(c));
            assert(s.skip(2) =~= tail);
            assert(seq![c] + v.drop_first() =~= v);
        } else {
            assert(s[0] == c);
            assert(s[0] != '"' && s[0] != '\\');
            assert(s.drop_first() =~= tail);
            assert(seq![c] + v.drop_first() =~= v);
        }
    }
}

/// Leading whitespace, dropped.
pub open spec fn skip_ws(s: Seq<char>) -> Seq<char> {
    drop_while_start(s, |c: char| is_space_char(c))
}

/// Expect `lit` as the next token, with any whitespace before it; what
/// follows the token on success.
pub open spec fn expect_tok(s: Seq<char>, lit: Seq<char>) -> Option<Seq<char>> {
    let t = skip_ws(s);
    if lit.len() <= t.len() && t.take(lit.len() as int) == lit {
        Some(t.skip(lit.len() as int))
    } else {
        None
    }
}

/// `expect_tok` chained through an earlier optional step.
pub open spec fn seq_tok(s: Option<Seq<char>>, lit: Seq<char>) -> Option<Seq<char>> {
    match s {
        Some(t) => expect_tok(t, lit),
        None => None,
    }
}

/// Expect a quoted string next: its decoded value and what follows it.
pub open spec fn parse_quoted(s: Seq<char>) -> Option<(Seq<char>, Seq<char>)> {
    let t = skip_ws(s);
    if t.len() > 0 && t[0] == '"' {
        parse_string_body(t.drop_first())
    } else {
        None
    }
}

/// `parse_quoted` chained through an earlier optional step.
pub open spec fn seq_quoted(s: Option<Seq<char>>) -> Option<(Seq<char>, Seq<char>)> {
    match s {
        Some(t) => parse_quoted(t),
        None => None,
    }
}

/// A token that does not begin with whitespace, standing exactly next, is
/// consumed as itself.
pub proof fn lemma_expect_exact(lit: Seq<char>, rest: Seq<char>)
    requires
        lit.len() > 0,
        !is_space_char(lit[0]),
    ensures
        expect_tok(lit + rest, lit) == Some(rest),
{
    let s = lit + rest;
    assert(s[0] == lit[0]);
    assert(skip_ws(s) == s);
    assert(s.take(lit.len() as int) =~= lit);
    assert(s.skip(lit.len() as int) =~= rest);
}

/// A quoted rendering standing exactly next parses back to its value.
pub proof fn lemma_quoted_exact(v: Seq<char>, rest: Seq<char>)
    ensures
        parse_quoted(seq!['"'] + escape_string(v) + seq!['"'] + rest) == Some((v, rest)),
{
    let s = seq!['"'] + escape_string(v) + seq!['"'] + rest;
    assert(s[0] == '"');
    assert(!is_space_char(s[0]));
    assert(skip_ws(s) == s);
    assert(s.drop_first() =~= escape_string(v) + seq!['"'] + rest);
    lemma_string_round_trip(v, rest);
}

/// Render a string value: quoted and escaped.
pub open spec fn render_string_spec(v: Seq<char>) -> Seq<char> {
    seq!['"'] + escape_string(v) + seq!['"']
}

pub fn render_string(v: &str) -> (r: String)
    ensures
        r@ == render_string_spec(v@),
{
    let mut out = String::new();
    push_char(&mut out, '"');
    let n: usize = v.unicode_len();
    let mut i: usize = 0;
    proof {
        assert(v@.subrange(0, 0) =~= Seq::<char>::empty());
        assert(out@ =~= seq!['"'] + escape_string(v@.subrange(0, 0)));
    }
    while i < n
        invariant
            0 <= i <= n,
            n == v@.len(),
            out@ == seq!['"'] + escape_string(v@.subrange(0, i as int)),
        decreases n - i,
    {
        let ghost pre = v@.subrange(0, i as int);
        let c = v.get_char(i);
        if c == '"' {
            push_char(&mut out, '\\');
            push_char(&mut out, '"');
        } else if c == '\\' {
            push_char(&mut out, '\\');
            push_char(&mut out, '\\');
        } else if c == '\n' {
            push_char(&mut out, '\\');
            push_char(&mut out, 'n');
        } else if c == '\r' {
            push_char(&mut out, '\\');
            push_char(&mut out, 'r');
        } else if c == '\t' {
            push_char(&mut out, '\\');
            push_char(&mut out, 't');
        } else {
            push_char(&mut out, c);
        }
        proof {
            lemma_escape_append(pre, c);
            assert(pre.push(c) =~= v@.subrange(0, i as int + 1));
            assert(out@ =~= seq!['"'] + escape_string(v@.subrange(0, i as int + 1)));
        }
        i = i + 1;
    }
    push_char(&mut out, '"');
    proof {
        assert(v@.subrange(0, n as int) =~= v@);
        assert(out@ =~= render_string_spec(v@));
    }
    out
}

/// Skip whitespace in `s` from `pos`; the index of the first character that
/// is not whitespace.
pub(crate) fn skip_ws_at(s: &str, pos: usize) -> (r: usize)
    requires
        pos <= s@.len(),
    ensures
        pos <= r <= s@.len(),
        skip_ws(s@.skip(pos as int)) == s@.skip(r as int),
        r < s@.len() ==> !is_space_char(s@[r as int]),
{
    let n: usize = s.unicode_len();
    let mut p: usize = pos;
    while p < n && is_space(s.get_char(p))
        invariant
            pos <= p <= n,
            n == s@.len(),
            forall|k: int| pos <= k < p ==> is_space_char(s@[k]),
        decreases n - p,
    {
        p = p + 1;
    }
    proof {
        let t = s@.skip(pos as int);
        crate::text::lemma_drop_while_start_range(t, |c: char| is_space_char(c), p as int - pos as int);
        assert(t.subrange(p as int - pos as int, t.len() as int) =~= s@.skip(p as int));
    }
    p
}

/// Match `lit` at `pos` after optional whitespace; the index just past it.
pub(crate) fn expect_tok_at(s: &str, pos: usize, lit: &str) -> (r: Option<usize>)
    requires
        pos <= s@.len(),
    ensures
        match r {
            Some(q) => pos <= q <= s@.len() && expect_tok(s@.skip(pos as int), lit@) == Some(
                s@.skip(q as int),
            ),
            None => expect_tok(s@.skip(pos as int), lit@) is None,
        },
{
    let n: usize = s.unicode_len();
    let p = skip_ws_at(s, pos);
    let ghost t = skip_ws(s@.skip(pos as int));
    let ln: usize = lit.unicode_len();
    if n - p < ln {
        assert(t.len() < lit@.len());
        return None;
    }
    let mut k: usize = 0;
    while k < ln
        invariant
            0 <= k <= ln,
            ln == lit@.len(),
            pos <= p,
            p + ln <= n,
            n == s@.len(),
            t == skip_ws(s@.skip(pos as int)),
            t == s@.skip(p as int),
            forall|m: int| 0 <= m < k ==> s@[p + m] == lit@[m],
        decreases ln - k,
    {
        if s.get_char(p + k) != lit.get_char(k) {
            assert(t.take(ln as int)[k as int] != lit@[k as int]);
            return None;
        }
        k = k + 1;
    }
    proof {
        assert(t.take(ln as int) =~= lit@);
        assert(t.skip(ln as int) =~= s@.skip(p as int + ln as int));
    }
    Some(p + ln)
}

/// Parse the rest of a quoted string from `pos`, which stands just after
/// the opening quote: the decoded value and the index past the closing
/// quote.
pub(crate) fn parse_string_body_at(s: &str, pos: usize) -> (r: Option<(String, usize)>)
    requires
        pos <= s@.len(),
    ensures
        match r {
            Some(p) => p.1 <= s@.len() && parse_string_body(s@.skip(pos as int)) == Some(
                (p.0@, s@.skip(p.1 as int)),
            ),
            None => parse_string_body(s@.skip(pos as int)) is None,
        },
{
    let n: usize = s.unicode_len();
    let mut acc = String::new();
    let mut cur: usize = pos;
    proof {
        assert(acc@ + Seq::<char>::empty() =~= Seq::<char>::empty());
    }
    while cur < n
        invariant
            pos <= cur <= n,
            n == s@.len(),
            parse_string_body(s@.skip(pos as int)) == pbs_extend(
                acc@,
                parse_string_body(s@.skip(cur as int)),
            ),
        decreases n - cur,
    {
        let ghost t = s@.skip(cur as int);
        let ghost acc_pre = acc@;
        assert(t[0] == s@[cur as int]);
        let c = s.get_char(cur);
        if c == '"' {
            proof {
                assert(t.drop_first() =~= s@.skip(cur as int + 1));
                assert(parse_string_body(t) == Some(
                    (Seq::<char>::empty(), s@.skip(cur as int + 1)),
                ));
                assert(acc@ + Seq::<char>::empty() =~= acc@);
            }
            return Some((acc, cur + 1));
        } else if c == '\\' {
            if cur + 1 >= n {
                assert(t.len() < 2);
                return None;
            }
            let e = s.get_char(cur + 1);
            assert(t[1] == e);
            let u: char;
            if e == '"' {
                u = '"';
            } else if e == '\\' {
                u = '\\';
            } else if e == 'n' {
                u = '\n';
            } else if e == 'r' {
                u = '\r';
            } else if e == 't' {
                u = '\t';
            } else {
                assert(unescape_char(t[1]) is None);
                return None;
            }
            assert(unescape_char(t[1]) == Some(u));
            push_char(&mut acc, u);
            proof {
                assert(t.skip(2) =~= s@.skip(cur as int + 2));
                assert(parse_string_body(t) == pbs_extend(
                    seq![u],
                    parse_string_body(s@.skip(cur as int + 2)),
                ));
                lemma_pbs_assoc(acc_pre, seq![u], parse_string_body(s@.skip(cur as int + 2)));
                assert(acc_pre + seq![u] =~= acc_pre.push(u));
            }
            cur = cur + 2;
        } else {
            push_char(&mut acc, c);
            proof {
                assert(t.drop_first() =~= s@.skip(cur as int + 1));
                assert(parse_string_body(t) == pbs_extend(
                    seq![c],
                    parse_string_body(s@.skip(cur as int + 1)),
                ));
                lemma_pbs_assoc(acc_pre, seq![c], parse_string_body(s@.skip(cur as int + 1)));
                assert(acc_pre + seq![c] =~= acc_pre.push(c));
            }
            cur = cur + 1;
        }
    }
    assert(s@.skip(cur as int).len() == 0);
    None
}

/// Expect a quoted string from `pos`: its decoded value and the index past
/// its closing quote.
pub(crate) fn parse_quoted_at(s: &str, pos: usize) -> (r: Option<(String, usize)>)
    requires
        pos <= s@.len(),
    ensures
        match r {
            Some(p) => p.1 <= s@.len() && parse_quoted(s@.skip(pos as int)) == Some(
                (p.0@, s@.skip(p.1 as int)),
            ),
            None => parse_quoted(s@.skip(pos as int)) is None,
        },
{
    let n: usize = s.unicode_len();
    let p = skip_ws_at(s, pos);
    let ghost t = skip_ws(s@.skip(pos as int));
    if p == n {
        assert(t.len() == 0);
        return None;
    }
    assert(t[0] == s@[p as int]);
    if s.get_char(p) != '"' {
        return None;
    }
    proof {
        assert(t.drop_first() =~= s@.skip(p as int + 1));
    }
    parse_string_body_at(s, p + 1)
}

} // verus!

//! Verified helpers over strings viewed as sequences of characters.
//!
//! Probing, selection and persistence all manipulate path and name strings;
//! this module gives each operation an exact mathematical description.

use vstd::prelude::*;
use vstd::string::StrSliceExecFns;
use vstd::string::StringExecFns;

verus! {

/// The whitespace characters that surround tokens in the inputs we read.
pub open spec fn is_space_char(c: char) -> bool {
    c == ' ' || c == '\t' || c == '\r' || c == '\n'
}

/// Path separators: both kinds, since registry entries carry Windows paths.
pub open spec fn is_sep_char(c: char) -> bool {
    c == '/' || c == '\\'
}

pub open spec fn is_digit_char(c: char) -> bool {
    '0' <= c && c <= '9'
}

pub fn is_space(c: char) -> (r: bool)
    ensures
        r == is_space_char(c),
{
    c == ' ' || c == '\t' || c == '\r' || c == '\n'
}

/// The longest suffix of `s` that does not start with a character in `p`.
pub open spec fn drop_while_start(s: Seq<char>, p: spec_fn(char) -> bool) -> Seq<char>
    decreases s.len(),
{
    if s.len() > 0 && p(s[0]) {
        drop_while_start(s.drop_first(), p)
    } else {
        s
    }
}

/// The longest prefix of `s` that does not end with a character in `p`.
pub open spec fn drop_while_end(s: Seq<char>, p: spec_fn(char) -> bool) -> Seq<char>
    decreases s.len(),
{
    if s.len() > 0 && p(s[s.len() - 1]) {
        drop_while_end(s.drop_last(), p)
    } else {
        s
    }
}

/// `s` with every leading and trailing character in `p` removed.
pub open spec fn trim_by(s: Seq<char>, p: spec_fn(char) -> bool) -> Seq<char> {
    drop_while_end(drop_while_start(s, p), p)
}

/// What `trim` returns: `s` without surrounding whitespace.
pub open spec fn trim_spec(s: Seq<char>) -> Seq<char> {
    trim_by(s, |c: char| is_space_char(c))
}

pub proof fn lemma_drop_while_start_range(s: Seq<char>, p: spec_fn(char) -> bool, i: int)
    requires
        0 <= i <= s.len(),
        forall|k: int| 0 <= k < i ==> p(s[k]),
        i < s.len() ==> !p(s[i]),
    ensures
        drop_while_start(s, p) == s.subrange(i, s.len() as int),
    decreases i,
{
    if i == 0 {
        assert(s =~= s.subrange(0, s.len() as int));
    } else {
        assert(p(s[0]));
        lemma_drop_while_start_range(s.drop_first(), p, i - 1);
        assert(s.drop_first().subrange(i - 1, s.drop_first().len() as int) =~= s.subrange(
            i,
            s.len() as int,
        ));
    }
}

proof fn lemma_drop_while_end_range(s: Seq<char>, p: spec_fn(char) -> bool, j: int)
    requires
        0 <= j <= s.len(),
        forall|k: int| j <= k < s.len() ==> p(s[k]),
        j > 0 ==> !p(s[j - 1]),
    ensures
        drop_while_end(s, p) == s.subrange(0, j),
    decreases s.len() - j,
{
    if j == s.len() {
        if s.len() > 0 && p(s[s.len() - 1]) {
            assert(false);
        }
        assert(s =~= s.subrange(0, j));
    } else {
        assert(p(s[s.len() - 1]));
        lemma_drop_while_end_range(s.drop_last(), p, j);
        assert(s.drop_last().subrange(0, j) =~= s.subrange(0, j));
    }
}

/// Where a stretch that begins with `p`-characters, ends with them, and is
/// clean in between runs from `i` to `j`, trimming yields exactly that middle.
proof fn lemma_trim_by_range(s: Seq<char>, p: spec_fn(char) -> bool, i: int, j: int)
    requires
        0 <= i <= j <= s.len(),
        forall|k: int| 0 <= k < i ==> p(s[k]),
        forall|k: int| j <= k < s.len() ==> p(s[k]),
        i < j ==> !p(s[i]) && !p(s[j - 1]),
    ensures
        trim_by(s, p) == s.subrange(i, j),
    decreases s.len(),
{
    if i == j {
        lemma_drop_while_start_range(s, p, s.len() as int);
        assert(drop_while_start(s, p) =~= Seq::<char>::empty());
        assert(drop_while_end(Seq::<char>::empty(), p) =~= s.subrange(i, j));
    } else {
        lemma_drop_while_start_range(s, p, i);
        let t = s.subrange(i, s.len() as int);
        lemma_drop_while_end_range(t, p, j - i);
        assert(t.subrange(0, j - i) =~= s.subrange(i, j));
    }
}

/// Remove surrounding whitespace, as `str::trim` does for ASCII whitespace.
pub fn trim(s: &str) -> (r: String)
    ensures
        r@ == trim_spec(s@),
{
    let n: usize = s.unicode_len();
    let mut i: usize = 0;
    while i < n && is_space(s.get_char(i))
        invariant
            0 <= i <= n,
            n == s@.len(),
            forall|k: int| 0 <= k < i ==> is_space_char(s@[k]),
        decreases n - i,
    {
        i = i + 1;
    }
    let mut j: usize = n;
    while j > i && is_space(s.get_char(j - 1))
        invariant
            i <= j <= n,
            n == s@.len(),
            forall|k: int| j <= k < n ==> is_space_char(s@[k]),
            forall|k: int| 0 <= k < i ==> is_space_char(s@[k]),
            i < s@.len() ==> !is_space_char(s@[i as int]),
        decreases j,
    {
        j = j - 1;
    }
    let t = s.substring_char(i, j);
    proof {
        lemma_trim_by_range(s@, |c: char| is_space_char(c), i as int, j as int);
    }
    t.to_owned()
}

/// Character-for-character equality of two string slices.
pub fn str_eq(a: &str, b: &str) -> (r: bool)
    ensures
        r == (a@ == b@),
{
    let an: usize = a.unicode_len();
    let bn: usize = b.unicode_len();
    if an != bn {
        return false;
    }
    let mut i: usize = 0;
    while i < an
        invariant
            0 <= i <= an,
            an == a@.len(),
            bn == b@.len(),
            an == bn,
            forall|k: int| 0 <= k < i ==> a@[k] == b@[k],
        decreases an - i,
    {
        if a.get_char(i) != b.get_char(i) {
            return false;
        }
        i = i + 1;
    }
    proof {
        assert(a@ =~= b@);
    }
    true
}

/// The two slices joined into one freshly allocated string.
pub fn concat_str(a: &str, b: &str) -> (r: String)
    ensures
        r@ == a@ + b@,
{
    let mut r = a.to_owned();
    r.append(b);
    r
}

/// Index of the last character of `s` satisfying `p`, or -1 if none does.
pub open spec fn last_index_where(s: Seq<char>, p: spec_fn(char) -> bool) -> int
    decreases s.len(),
{
    if s.len() == 0 {
        -1
    } else if p(s[s.len() - 1]) {
        s.len() - 1
    } else {
        last_index_where(s.drop_last(), p)
    }
}

/// `last_index_where` is pinned down by: `p` holds there and nowhere later.
proof fn lemma_last_index_where_is(s: Seq<char>, p: spec_fn(char) -> bool, m: int)
    requires
        -1 <= m < s.len(),
        m >= 0 ==> p(s[m]),
        forall|k: int| m < k < s.len() ==> !p(s[k]),
    ensures
        last_index_where(s, p) == m,
    decreases s.len(),
{
    if s.len() == 0 {
    } else if p(s[s.len() - 1]) {
        assert(m == s.len() - 1);
    } else {
        assert(m < s.len() - 1);
        lemma_last_index_where_is(s.drop_last(), p, m);
    }
}

/// The part of a path after its last separator; empty when the path ends in
/// one, the whole string when it has none.
pub open spec fn basename_spec(s: Seq<char>) -> Seq<char> {
    s.subrange(last_index_where(s, |c: char| is_sep_char(c)) + 1, s.len() as int)
}

/// The basename without its extension: everything before the last dot, unless
/// the dot leads (a dotfile) or there is none.
pub open spec fn stem_spec(s: Seq<char>) -> Seq<char> {
    let d = last_index_where(s, |c: char| c == '.');
    if d > 0 {
        s.subrange(0, d)
    } else {
        s
    }
}

fn is_sep(c: char) -> (r: bool)
    ensures
        r == is_sep_char(c),
{
    c == '/' || c == '\\'
}

/// The file name at the end of `path`, with either separator style.
pub fn basename(path: &str) -> (r: String)
    ensures
        r@ == basename_spec(path@),
{
    let n: usize = path.unicode_len();
    let mut j: usize = n;
    while j > 0 && !is_sep(path.get_char(j - 1))
        invariant
            0 <= j <= n,
            n == path@.len(),
            forall|k: int| j <= k < n ==> !is_sep_char(path@[k]),
        decreases j,
    {
        j = j - 1;
    }
    proof {
        lemma_last_index_where_is(path@, |c: char| is_sep_char(c), j as int - 1);
    }
    path.substring_char(j, n).to_owned()
}

/// The stem of a file name: strips a trailing extension, keeps dotfiles whole.
pub fn stem_of(name: &str) -> (r: String)
    ensures
        r@ == stem_spec(name@),
{
    let n: usize = name.unicode_len();
    let mut j: usize = n;
    while j > 0 && name.get_char(j - 1) != '.'
        invariant
            0 <= j <= n,
            n == name@.len(),
            forall|k: int| j <= k < n ==> name@[k] != '.',
        decreases j,
    {
        j = j - 1;
    }
    proof {
        lemma_last_index_where_is(name@, |c: char| c == '.', j as int - 1);
    }
    if j > 1 {
        name.substring_char(0, j - 1).to_owned()
    } else {
        name.to_owned()
    }
}

/// The prefix of `s` before the first character satisfying `p`; all of `s`
/// when no character does.
pub open spec fn take_until(s: Seq<char>, p: spec_fn(char) -> bool) -> Seq<char>
    decreases s.len(),
{
    if s.len() == 0 {
        s
    } else if p(s[0]) {
        Seq::<char>::empty()
    } else {
        seq![s[0]] + take_until(s.drop_first(), p)
    }
}

pub proof fn lemma_take_until_range(s: Seq<char>, p: spec_fn(char) -> bool, i: int)
    requires
        0 <= i <= s.len(),
        forall|k: int| 0 <= k < i ==> !p(s[k]),
        i < s.len() ==> p(s[i]),
    ensures
        take_until(s, p) == s.subrange(0, i),
    decreases i,
{
    if s.len() == 0 {
        assert(take_until(s, p) =~= s.subrange(0, 0));
    } else if i == 0 {
        assert(take_until(s, p) =~= s.subrange(0, 0));
    } else {
        lemma_take_until_range(s.drop_first(), p, i - 1);
        assert(s.drop_first().subrange(0, i - 1) =~= s.subrange(1, i));
        assert(seq![s[0]] + s.subrange(1, i) =~= s.subrange(0, i));
    }
}

/// What the first line of a probe's output is: everything before the first
/// newline.
pub open spec fn first_line_spec(s: Seq<char>) -> Seq<char> {
    take_until(s, |c: char| c == '\n')
}

/// The prefix of `s` up to, not including, its first newline.
pub fn first_line(s: &str) -> (r: String)
    ensures
        r@ == first_line_spec(s@),
{
    let n: usize = s.unicode_len();
    let mut i: usize = 0;
    while i < n && s.get_char(i) != '\n'
        invariant
            0 <= i <= n,
            n == s@.len(),
            forall|k: int| 0 <= k < i ==> s@[k] != '\n',
        decreases n - i,
    {
        i = i + 1;
    }
    proof {
        lemma_take_until_range(s@, |c: char| c == '\n', i as int);
    }
    s.substring_char(0, i).to_owned()
}

/// What the first whitespace-separated token of `s` is; `s` itself when `s`
/// holds no token at all, as `split_whitespace().next().unwrap_or(..)` gives.
pub open spec fn first_token_spec(s: Seq<char>) -> Seq<char> {
    let t = drop_while_start(s, |c: char| is_space_char(c));
    if t.len() == 0 {
        s
    } else {
        take_until(t, |c: char| is_space_char(c))
    }
}

/// The first whitespace-separated token, or the whole string when it is all
/// whitespace.
pub fn first_token(s: &str) -> (r: String)
    ensures
        r@ == first_token_spec(s@),
{
    let n: usize = s.unicode_len();
    let mut i: usize = 0;
    while i < n && is_space(s.get_char(i))
        invariant
            0 <= i <= n,
            n == s@.len(),
            forall|k: int| 0 <= k < i ==> is_space_char(s@[k]),
        decreases n - i,
    {
        i = i + 1;
    }
    proof {
        lemma_drop_while_start_range(s@, |c: char| is_space_char(c), i as int);
    }
    if i == n {
        return s.to_owned();
    }
    let mut j: usize = i;
    while j < n && !is_space(s.get_char(j))
        invariant
            i <= j <= n,
            n == s@.len(),
            forall|k: int| i <= k < j ==> !is_space_char(s@[k]),
        decreases n - j,
    {
        j = j + 1;
    }
    proof {
        let t = s@.subrange(i as int, n as int);
        lemma_take_until_range(t, |c: char| is_space_char(c), j - i);
        assert(t.subrange(0, j - i) =~= s@.subrange(i as int, j as int));
    }
    s.substring_char(i, j).to_owned()
}

/// `s` with every leading and trailing double quote removed, as
/// `trim_matches('"')` leaves it.
pub fn trim_quotes(s: &str) -> (r: String)
    ensures
        r@ == trim_by(s@, |c: char| c == '"'),
{
    let n: usize = s.unicode_len();
    let mut i: usize = 0;
    while i < n && s.get_char(i) == '"'
        invariant
            0 <= i <= n,
            n == s@.len(),
            forall|k: int| 0 <= k < i ==> s@[k] == '"',
        decreases n - i,
    {
        i = i + 1;
    }
    let mut j: usize = n;
    while j > i && s.get_char(j - 1) == '"'
        invariant
            i <= j <= n,
            n == s@.len(),
            forall|k: int| j <= k < n ==> s@[k] == '"',
            forall|k: int| 0 <= k < i ==> s@[k] == '"',
            i < s@.len() ==> s@[i as int] != '"',
        decreases j,
    {
        j = j - 1;
    }
    proof {
        lemma_trim_by_range(s@, |c: char| c == '"', i as int, j as int);
    }
    s.substring_char(i, j).to_owned()
}

pub open spec fn all_digits(s: Seq<char>) -> bool {
    forall|k: int| 0 <= k < s.len() ==> is_digit_char(s[k])
}

/// The number a string of decimal digits denotes.
pub open spec fn digits_val(s: Seq<char>) -> int
    decreases s.len(),
{
    if s.len() == 0 {
        0
    } else {
        digits_val(s.drop_last()) * 10 + (s[s.len() - 1] as int - '0' as int)
    }
}

/// What parsing an unsigned decimal returns: the value when `s` is one or
/// more digits and fits, nothing otherwise.
pub open spec fn parse_usize_spec(s: Seq<char>) -> Option<int> {
    if s.len() > 0 && all_digits(s) && digits_val(s) <= usize::MAX as int {
        Some(digits_val(s))
    } else {
        None
    }
}

proof fn lemma_digits_val_nonneg(s: Seq<char>)
    requires
        all_digits(s),
    ensures
        digits_val(s) >= 0,
    decreases s.len(),
{
    if s.len() > 0 {
        assert(all_digits(s.drop_last()));
        lemma_digits_val_nonneg(s.drop_last());
    }
}

/// With more digits appended the value can only grow.
proof fn lemma_digits_val_prefix_le(s: Seq<char>, i: int)
    requires
        all_digits(s),
        0 <= i <= s.len(),
    ensures
        digits_val(s.subrange(0, i)) <= digits_val(s),
    decreases s.len() - i,
{
    if i == s.len() {
        assert(s.subrange(0, i) =~= s);
    } else {
        let t = s.subrange(0, i + 1);
        assert(all_digits(t));
        assert(t.drop_last() =~= s.subrange(0, i));
        lemma_digits_val_nonneg(s.subrange(0, i));
        assert(digits_val(t) == digits_val(s.subrange(0, i)) * 10 + (s[i] as int - '0' as int));
        lemma_digits_val_prefix_le(s, i + 1);
    }
}

/// Parse an unsigned decimal number, exactly when `s` is all digits, is not
/// empty, and the value fits in a `usize`.
pub fn parse_usize(s: &str) -> (r: Option<usize>)
    ensures
        match r {
            Some(v) => parse_usize_spec(s@) == Some(v as int),
            None => parse_usize_spec(s@) is None,
        },
{
    let n: usize = s.unicode_len();
    if n == 0 {
        return None;
    }
    let mut acc: usize = 0;
    let mut i: usize = 0;
    while i < n
        invariant
            0 <= i <= n,
            n == s@.len(),
            all_digits(s@.subrange(0, i as int)),
            acc == digits_val(s@.subrange(0, i as int)),
        decreases n - i,
    {
        let c = s.get_char(i);
        if !(c >= '0' && c <= '9') {
            assert(!is_digit_char(s@[i as int]));
            return None;
        }
        let d: u32 = c as u32 - 48;
        assert(d <= 9);
        let wide: u128 = acc as u128 * 10 + d as u128;
        proof {
            assert(s@.subrange(0, i + 1).drop_last() =~= s@.subrange(0, i as int));
        }
        if wide > usize::MAX as u128 {
            proof {
                assert(all_digits(s@.subrange(0, i + 1)));
                assert(digits_val(s@.subrange(0, i + 1)) == wide);
                if all_digits(s@) {
                    lemma_digits_val_prefix_le(s@, i + 1);
                    assert(digits_val(s@) > usize::MAX as int);
                }
            }
            return None;
        }
        acc = wide as usize;
        i = i + 1;
    }
    proof {
        assert(s@.subrange(0, n as int) =~= s@);
    }
    Some(acc)
}

/// Are these letters the same up to ASCII case?
pub open spec fn chars_eq_nocase(a: char, b: char) -> bool {
    a == b || ('A' <= a && a <= 'Z' && b as int == a as int + 32) || ('A' <= b && b <= 'Z'
        && a as int == b as int + 32)
}

pub fn char_eq_nocase(a: char, b: char) -> (r: bool)
    ensures
        r == chars_eq_nocase(a, b),
{
    a == b || (a >= 'A' && a <= 'Z' && b as u32 == a as u32 + 32) || (b >= 'A' && b <= 'Z' && a
        as u32 == b as u32 + 32)
}

/// Does `n` occur in `h` starting at `i`, up to ASCII case?
pub open spec fn matches_at_nocase(h: Seq<char>, n: Seq<char>, i: int) -> bool {
    0 <= i && i + n.len() <= h.len() && (forall|k: int|
        0 <= k < n.len() ==> chars_eq_nocase(h[i + k], n[k]))
}

/// Does `n` occur anywhere in `h`, up to ASCII case?
pub open spec fn contains_nocase(h: Seq<char>, n: Seq<char>) -> bool {
    exists|i: int| matches_at_nocase(h, n, i)
}

/// Substring search that ignores ASCII case, as lowercasing both sides and
/// calling `str::contains` would.
pub fn contains_ignore_case(hay: &str, needle: &str) -> (r: bool)
    ensures
        r == contains_nocase(hay@, needle@),
{
    let hn: usize = hay.unicode_len();
    let nn: usize = needle.unicode_len();
    if nn > hn {
        assert(forall|i: int| !matches_at_nocase(hay@, needle@, i));
        return false;
    }
    let mut i: usize = 0;
    while i <= hn - nn
        invariant
            0 <= i <= hn - nn + 1,
            nn <= hn,
            hn == hay@.len(),
            nn == needle@.len(),
            forall|j: int| 0 <= j < i ==> !matches_at_nocase(hay@, needle@, j),
        decreases hn + 1 - nn - i,
    {
        let mut k: usize = 0;
        let mut all_eq: bool = true;
        while k < nn
            invariant
                0 <= k <= nn,
                0 <= i <= hn - nn,
                hn == hay@.len(),
                nn == needle@.len(),
                all_eq == (forall|m: int|
                    0 <= m < k ==> chars_eq_nocase(hay@[i + m], needle@[m])),
            decreases nn - k,
        {
            if !char_eq_nocase(hay.get_char(i + k), needle.get_char(k)) {
                all_eq = false;
                assert(!chars_eq_nocase(hay@[i + k], needle@[k as int]));
                k = nn;
            } else {
                k = k + 1;
            }
        }
        if all_eq {
            assert(matches_at_nocase(hay@, needle@, i as int));
            return true;
        }
        i = i + 1;
    }
    assert(forall|j: int| #[trigger] matches_at_nocase(hay@, needle@, j) ==> (0 <= j && j + nn
        <= hn));
    false
}

/// Are the two strings equal up to ASCII case?
pub open spec fn seq_eq_nocase(a: Seq<char>, b: Seq<char>) -> bool {
    a.len() == b.len() && (forall|k: int| 0 <= k < a.len() ==> chars_eq_nocase(a[k], b[k]))
}

/// String equality that ignores ASCII case, as `eq_ignore_ascii_case` has
/// it.
pub fn str_eq_nocase(a: &str, b: &str) -> (r: bool)
    ensures
        r == seq_eq_nocase(a@, b@),
{
    let an: usize = a.unicode_len();
    let bn: usize = b.unicode_len();
    if an != bn {
        return false;
    }
    let mut i: usize = 0;
    while i < an
        invariant
            0 <= i <= an,
            an == a@.len(),
            bn == b@.len(),
            an == bn,
            forall|k: int| 0 <= k < i ==> chars_eq_nocase(a@[k], b@[k]),
        decreases an - i,
    {
        if !char_eq_nocase(a.get_char(i), b.get_char(i)) {
            return false;
        }
        i = i + 1;
    }
    true
}

/// The views of a sequence of owned strings.
pub open spec fn strings_view(s: Seq<String>) -> Seq<Seq<char>> {
    s.map_values(|x: String| x@)
}

/// Relies on `String::push`: appends the given character to the end of the
/// string.
#[verifier::external_body]
pub fn push_char(s: &mut String, c: char)
    ensures
        final(s)@ == old(s)@.push(c),
{
    s.push(c)
}

} // verus!

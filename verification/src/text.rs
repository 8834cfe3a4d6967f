//! Character-level string helpers with exact specifications.

use vstd::prelude::*;

verus! {

/// The characters of `s`, in order.
pub fn chars_of(s: &str) -> (v: Vec<char>)
    ensures
        v@ == s@,
{
    let mut v: Vec<char> = Vec::new();
    let chars = s.chars();
    for c in it: chars
        invariant
            v@ == it.seq().take(it.index() as int),
            it.seq() == s@,
    {
        v.push(c);
    }
    v
}

/// Builds a `String` from a sequence of characters (std's `FromIterator<&char>`).
#[verifier::external_body]
pub(crate) fn string_from_chars(v: &[char]) -> (s: String)
    ensures
        s@ == v@,
{
    v.iter().collect()
}

/// Whether two character slices hold the same characters.
pub fn chars_eq(a: &[char], b: &[char]) -> (r: bool)
    ensures
        r == (a@ == b@),
{
    if a.len() != b.len() {
        return false;
    }
    let mut i: usize = 0;
    while i < a.len()
        invariant
            a.len() == b.len(),
            0 <= i <= a.len(),
            forall|j: int| 0 <= j < i ==> a@[j] == b@[j],
        decreases a.len() - i,
    {
        if a[i] != b[i] {
            return false;
        }
        i = i + 1;
    }
    assert(a@ =~= b@);
    true
}

/// Whether two strings hold the same characters.
pub fn str_eq(a: &str, b: &str) -> (r: bool)
    ensures
        r == (a@ == b@),
{
    let va = chars_of(a);
    let vb = chars_of(b);
    chars_eq(va.as_slice(), vb.as_slice())
}

/// The code of `c` with ASCII upper-case letters mapped to lower case.
pub open spec fn ascii_lower_code(c: char) -> u32 {
    if 65 <= (c as u32) <= 90 {
        ((c as u32) + 32) as u32
    } else {
        c as u32
    }
}

/// Equality of character sequences up to ASCII case.
pub open spec fn eq_ignore_ascii_case_spec(a: Seq<char>, b: Seq<char>) -> bool {
    &&& a.len() == b.len()
    &&& forall|i: int| 0 <= i < a.len() ==> ascii_lower_code(#[trigger] a[i]) == ascii_lower_code(b[i])
}

fn lower_code(c: char) -> (r: u32)
    ensures
        r == ascii_lower_code(c),
{
    let u = c as u32;
    if 65 <= u && u <= 90 {
        u + 32
    } else {
        u
    }
}

/// Whether `a` and `b` are equal when ASCII letters are compared without case
/// (the behaviour of `str::eq_ignore_ascii_case`).
pub fn eq_ignore_ascii_case(a: &str, b: &str) -> (r: bool)
    ensures
        r == eq_ignore_ascii_case_spec(a@, b@),
{
    let va = chars_of(a);
    let vb = chars_of(b);
    if va.len() != vb.len() {
        return false;
    }
    let mut i: usize = 0;
    while i < va.len()
        invariant
            va@ == a@,
            vb@ == b@,
            va.len() == vb.len(),
            0 <= i <= va.len(),
            forall|j: int| 0 <= j < i ==> ascii_lower_code(#[trigger] va@[j]) == ascii_lower_code(vb@[j]),
        decreases va.len() - i,
    {
        if lower_code(va[i]) != lower_code(vb[i]) {
            return false;
        }
        i = i + 1;
    }
    true
}

/// `c` with an ASCII upper-case letter mapped to lower case.
pub open spec fn ascii_lower(c: char) -> char {
    if 'A' <= c <= 'Z' {
        ((c as u32) + 32) as char
    } else {
        c
    }
}

fn lower_char(c: char) -> (r: char)
    ensures
        r == ascii_lower(c),
{
    match c {
        'A' => 'a', 'B' => 'b', 'C' => 'c', 'D' => 'd', 'E' => 'e', 'F' => 'f', 'G' => 'g',
        'H' => 'h', 'I' => 'i', 'J' => 'j', 'K' => 'k', 'L' => 'l', 'M' => 'm', 'N' => 'n',
        'O' => 'o', 'P' => 'p', 'Q' => 'q', 'R' => 'r', 'S' => 's', 'T' => 't', 'U' => 'u',
        'V' => 'v', 'W' => 'w', 'X' => 'x', 'Y' => 'y', 'Z' => 'z',
        _ => c,
    }
}

/// `s` with every ASCII upper-case letter in lower case
/// (`str::to_ascii_lowercase`).
pub fn to_ascii_lowercase(s: &str) -> (r: String)
    ensures
        r@ == s@.map_values(|c: char| ascii_lower(c)),
{
    let v = chars_of(s);
    let mut out: Vec<char> = Vec::new();
    let mut i: usize = 0;
    while i < v.len()
        invariant
            v@ == s@,
            0 <= i <= v.len(),
            out@ == v@.take(i as int).map_values(|c: char| ascii_lower(c)),
        decreases v.len() - i,
    {
        out.push(lower_char(v[i]));
        i = i + 1;
        assert(out@ =~= v@.take(i as int).map_values(|c: char| ascii_lower(c)));
    }
    assert(v@.take(v.len() as int) =~= v@);
    string_from_chars(out.as_slice())
}

/// The decimal digit character for `d` (`d < 10`).
pub open spec fn digit_char(d: nat) -> char {
    if d == 0 { '0' }
    else if d == 1 { '1' }
    else if d == 2 { '2' }
    else if d == 3 { '3' }
    else if d == 4 { '4' }
    else if d == 5 { '5' }
    else if d == 6 { '6' }
    else if d == 7 { '7' }
    else if d == 8 { '8' }
    else { '9' }
}

/// The decimal representation of `n`, without leading zeros.
pub open spec fn decimal(n: nat) -> Seq<char>
    decreases n,
{
    if n < 10 {
        seq![digit_char(n)]
    } else {
        decimal(n / 10).push(digit_char(n % 10))
    }
}

fn digit(d: u64) -> (c: char)
    requires
        d < 10,
    ensures
        c == digit_char(d as nat),
{
    match d {
        0 => '0',
        1 => '1',
        2 => '2',
        3 => '3',
        4 => '4',
        5 => '5',
        6 => '6',
        7 => '7',
        8 => '8',
        _ => '9',
    }
}

/// Appends the decimal representation of `n` to `out`.
pub fn push_decimal(n: u64, out: &mut Vec<char>)
    ensures
        final(out)@ == old(out)@ + decimal(n as nat),
    decreases n,
{
    if n >= 10 {
        push_decimal(n / 10, out);
    }
    out.push(digit(n % 10));
    proof {
        if n >= 10 {
            assert(decimal(n as nat) == decimal((n / 10) as nat).push(digit_char((n % 10) as nat)));
        }
        assert(final(out)@ =~= old(out)@ + decimal(n as nat)) by {
            if n < 10 {
                assert(decimal(n as nat) == seq![digit_char(n as nat)]);
            }
        }
    }
}

/// The decimal representation of `n` as a `String`.
pub fn decimal_string(n: u64) -> (s: String)
    ensures
        s@ == decimal(n as nat),
{
    let mut v: Vec<char> = Vec::new();
    push_decimal(n, &mut v);
    assert(v@ =~= decimal(n as nat));
    string_from_chars(v.as_slice())
}

/// Appends the characters of `s` to `out`.
pub fn push_str(out: &mut Vec<char>, s: &str)
    ensures
        final(out)@ == old(out)@ + s@,
{
    let v = chars_of(s);
    let mut i: usize = 0;
    while i < v.len()
        invariant
            v@ == s@,
            0 <= i <= v.len(),
            out@ == old(out)@ + v@.take(i as int),
        decreases v.len() - i,
    {
        out.push(v[i]);
        i = i + 1;
        assert(out@ =~= old(out)@ + v@.take(i as int));
    }
    assert(v@.take(v.len() as int) =~= v@);
}

/// Whether `c` has the Unicode `White_Space` property (`char::is_whitespace`).
pub open spec fn is_whitespace(c: char) -> bool {
    let u = c as u32;
    ||| 0x09 <= u <= 0x0D
    ||| u == 0x20
    ||| u == 0x85
    ||| u == 0xA0
    ||| u == 0x1680
    ||| 0x2000 <= u <= 0x200A
    ||| u == 0x2028
    ||| u == 0x2029
    ||| u == 0x202F
    ||| u == 0x205F
    ||| u == 0x3000
}

/// Whether `c` is white space (`char::is_whitespace`).
pub fn char_is_whitespace(c: char) -> (r: bool)
    ensures
        r == is_whitespace(c),
{
    let u = c as u32;
    (0x09 <= u && u <= 0x0D) || u == 0x20 || u == 0x85 || u == 0xA0 || u == 0x1680
        || (0x2000 <= u && u <= 0x200A) || u == 0x2028 || u == 0x2029 || u == 0x202F
        || u == 0x205F || u == 0x3000
}

/// The number of white-space characters at the start of `s`.
pub open spec fn leading_ws(s: Seq<char>) -> nat
    decreases s.len(),
{
    if s.len() > 0 && is_whitespace(s[0]) {
        1 + leading_ws(s.drop_first())
    } else {
        0
    }
}

/// The number of white-space characters at the end of `s`.
pub open spec fn trailing_ws(s: Seq<char>) -> nat
    decreases s.len(),
{
    if s.len() > 0 && is_whitespace(s.last()) {
        1 + trailing_ws(s.drop_last())
    } else {
        0
    }
}

/// `s` without leading and trailing white space (`str::trim`).
pub open spec fn trim_spec(s: Seq<char>) -> Seq<char> {
    let t = s.skip(leading_ws(s) as int);
    t.take(t.len() - trailing_ws(t))
}

proof fn lemma_leading_ws(s: Seq<char>, i: int)
    requires
        0 <= i <= s.len(),
        forall|k: int| 0 <= k < i ==> is_whitespace(#[trigger] s[k]),
        i == s.len() || !is_whitespace(s[i]),
    ensures
        leading_ws(s) == i,
    decreases i,
{
    if i > 0 {
        let t = s.drop_first();
        assert forall|k: int| 0 <= k < i - 1 implies is_whitespace(#[trigger] t[k]) by {
            assert(t[k] == s[k + 1]);
        }
        lemma_leading_ws(t, i - 1);
    }
}

proof fn lemma_trailing_ws(s: Seq<char>, j: int)
    requires
        0 <= j <= s.len(),
        forall|k: int| j <= k < s.len() ==> is_whitespace(#[trigger] s[k]),
        j == 0 || !is_whitespace(s[j - 1]),
    ensures
        trailing_ws(s) == s.len() - j,
    decreases s.len() - j,
{
    if j < s.len() {
        let t = s.drop_last();
        assert forall|k: int| j <= k < t.len() implies is_whitespace(#[trigger] t[k]) by {
            assert(t[k] == s[k]);
        }
        lemma_trailing_ws(t, j);
    }
}

/// The characters of `s` without leading and trailing white space.
pub fn trim_chars(s: &[char]) -> (r: Vec<char>)
    ensures
        r@ == trim_spec(s@),
{
    let mut i: usize = 0;
    while i < s.len() && char_is_whitespace(s[i])
        invariant
            0 <= i <= s.len(),
            forall|k: int| 0 <= k < i ==> is_whitespace(#[trigger] s@[k]),
        decreases s.len() - i,
    {
        i = i + 1;
    }
    proof {
        lemma_leading_ws(s@, i as int);
    }
    let mut j: usize = s.len();
    while j > i && char_is_whitespace(s[j - 1])
        invariant
            i <= j <= s.len(),
            forall|k: int| j <= k < s.len() ==> is_whitespace(#[trigger] s@[k]),
        decreases j,
    {
        j = j - 1;
    }
    let ghost t = s@.skip(i as int);
    proof {
        assert forall|k: int| j - i <= k < t.len() implies is_whitespace(#[trigger] t[k]) by {
            assert(t[k] == s@[k + i]);
        }
        if j > i {
            assert(t[j - i - 1] == s@[j - 1]);
        }
        lemma_trailing_ws(t, j - i);
    }
    let mut r: Vec<char> = Vec::new();
    let mut k: usize = i;
    while k < j
        invariant
            i <= k <= j,
            j <= s.len(),
            r@ == s@.subrange(i as int, k as int),
        decreases j - k,
    {
        r.push(s[k]);
        k = k + 1;
        assert(r@ =~= s@.subrange(i as int, k as int));
    }
    assert(r@ =~= trim_spec(s@));
    r
}

/// `s` without leading and trailing white space.
pub fn trim(s: &str) -> (r: String)
    ensures
        r@ == trim_spec(s@),
{
    let v = chars_of(s);
    let t = trim_chars(v.as_slice());
    string_from_chars(t.as_slice())
}

/// Whether `w` is one of the white-space separated words of `s`
/// (`s.split_whitespace().any(|x| x == w)`).
pub open spec fn is_word_of(s: Seq<char>, w: Seq<char>) -> bool {
    &&& w.len() > 0
    &&& forall|k: int| 0 <= k < w.len() ==> !is_whitespace(#[trigger] w[k])
    &&& exists|i: int| #![trigger s.subrange(i, i + w.len())]
        0 <= i && i + w.len() <= s.len()
        && s.subrange(i, i + w.len()) == w
        && (i == 0 || is_whitespace(s[i - 1]))
        && (i + w.len() == s.len() || is_whitespace(s[i + w.len()]))
}

/// Whether `w` is one of the white-space separated words of `s`.
pub fn has_word(s: &str, w: &str) -> (r: bool)
    ensures
        r == is_word_of(s@, w@),
{
    let sv = chars_of(s);
    let wv = chars_of(w);
    let n = sv.len();
    let m = wv.len();
    if m == 0 {
        return false;
    }
    let mut k: usize = 0;
    while k < m
        invariant
            0 <= k <= m,
            m == wv@.len(),
            wv@ == w@,
            forall|q: int| 0 <= q < k ==> !is_whitespace(#[trigger] wv@[q]),
        decreases m - k,
    {
        if char_is_whitespace(wv[k]) {
            assert(is_whitespace(w@[k as int]));
            return false;
        }
        k = k + 1;
    }
    // Scan the words of `s`: each starts at a non-space after a space (or at 0).
    let mut i: usize = 0;
    while i < n
        invariant
            0 <= i <= n,
            n == sv@.len(),
            m == wv@.len(),
            m > 0,
            sv@ == s@,
            wv@ == w@,
            i == 0 || i == n || is_whitespace(sv@[i - 1]) || is_whitespace(sv@[i as int]),
            forall|q: int| 0 <= q < m ==> !is_whitespace(#[trigger] wv@[q]),
            forall|p: int| #![trigger sv@.subrange(p, p + m)]
                0 <= p < i && p + m <= n && (p == 0 || is_whitespace(sv@[p - 1]))
                && (p + m == n || is_whitespace(sv@[p + m])) ==> sv@.subrange(p, p + m) != wv@,
        decreases n - i,
    {
        if char_is_whitespace(sv[i]) {
            proof {
                assert forall|p: int| #![trigger sv@.subrange(p, p + m)]
                    0 <= p < i + 1 && p + m <= n && (p == 0 || is_whitespace(sv@[p - 1]))
                    && (p + m == n || is_whitespace(sv@[p + m])) implies sv@.subrange(p, p + m) != wv@ by {
                    if p == i {
                        assert(sv@.subrange(p, p + m)[0] == sv@[i as int]);
                    }
                }
            }
            i = i + 1;
        } else {
            // The word starting at i ends at the next space or at the end.
            let mut j: usize = i;
            while j < n && !char_is_whitespace(sv[j])
                invariant
                    i <= j <= n,
                    n == sv@.len(),
                    forall|q: int| i <= q < j ==> !is_whitespace(#[trigger] sv@[q]),
                decreases n - j,
            {
                j = j + 1;
            }
            let mut same = j - i == m;
            if same {
                let mut q: usize = 0;
                while q < m && same
                    invariant
                        0 <= q <= m,
                        j - i == m,
                        j <= n,
                        n == sv@.len(),
                        m == wv@.len(),
                        same ==> forall|t: int| 0 <= t < q ==> sv@[i + t] == wv@[t],
                        !same ==> exists|t: int| 0 <= t < m && sv@[i + t] != wv@[t],
                    decreases (m - q) as int + (if same { 1int } else { 0int }),
                {
                    if sv[i + q] != wv[q] {
                        same = false;
                    } else {
                        q = q + 1;
                    }
                }
                if same {
                    proof {
                        assert(sv@.subrange(i as int, i + m) =~= wv@);
                    }
                    return true;
                }
            }
            proof {
                assert forall|p: int| #![trigger sv@.subrange(p, p + m)]
                    0 <= p < j && p + m <= n && (p == 0 || is_whitespace(sv@[p - 1]))
                    && (p + m == n || is_whitespace(sv@[p + m])) implies sv@.subrange(p, p + m) != wv@ by {
                    if p >= i {
                        if p > i {
                            assert(!is_whitespace(sv@[p - 1]));
                        } else if p + m < j {
                            assert(!is_whitespace(sv@[p + m]));
                        } else if p + m > j {
                            assert(sv@.subrange(p, p + m)[j - p] == sv@[j as int]);
                            assert(is_whitespace(sv@[j as int]));
                        } else {
                            if j - i == m {
                                let t = choose|t: int| 0 <= t < m && sv@[i + t] != wv@[t];
                                assert(sv@.subrange(p, p + m)[t] == sv@[i + t]);
                            }
                        }
                    }
                }
            }
            i = j;
        }
    }
    false
}

/// Lines each followed by a newline, one after another.
pub open spec fn terminated_lines(lines: Seq<Seq<char>>) -> Seq<char>
    decreases lines.len(),
{
    if lines.len() == 0 {
        Seq::empty()
    } else {
        terminated_lines(lines.drop_last()) + lines.last() + seq!['\n']
    }
}

/// Splits `text` into its complete lines (without their newlines) and the
/// unfinished rest after the last newline: `text` is the lines, each
/// followed by a newline, then the rest, and none of them holds a newline.
pub fn split_complete_lines(text: &str) -> (r: (Vec<String>, String))
    ensures
        terminated_lines(r.0@.map_values(|l: String| l@)) + r.1@ == text@,
        forall|i: int| 0 <= i < r.0@.len() ==> !(#[trigger] r.0@[i])@.contains('\n'),
        !r.1@.contains('\n'),
{
    let v = chars_of(text);
    let mut lines: Vec<String> = Vec::new();
    let mut cur: Vec<char> = Vec::new();
    let mut i: usize = 0;
    while i < v.len()
        invariant
            v@ == text@,
            0 <= i <= v.len(),
            terminated_lines(lines@.map_values(|l: String| l@)) + cur@ == v@.take(i as int),
            forall|k: int| 0 <= k < lines@.len() ==> !(#[trigger] lines@[k])@.contains('\n'),
            !cur@.contains('\n'),
        decreases v.len() - i,
    {
        let c = v[i];
        let ghost before = lines@.map_values(|l: String| l@);
        if c == '\n' {
            let line = string_from_chars(cur.as_slice());
            lines.push(line);
            proof {
                let after = lines@.map_values(|l: String| l@);
                assert(after.drop_last() =~= before);
                assert(after.last() == cur@);
                assert(terminated_lines(after) =~= v@.take(i + 1));
            }
            cur = Vec::new();
            assert(!cur@.contains('\n'));
        } else {
            let ghost old_cur = cur@;
            cur.push(c);
            proof {
                assert(lines@.map_values(|l: String| l@) =~= before);
                assert(terminated_lines(before) + cur@ =~= v@.take(i + 1));
                assert(!cur@.contains('\n')) by {
                    if cur@.contains('\n') {
                        let k = choose|k: int| 0 <= k < cur@.len() && cur@[k] == '\n';
                        if k < old_cur.len() {
                            assert(old_cur[k] == '\n');
                        }
                    }
                }
            }
        }
        i = i + 1;
    }
    assert(v@.take(v.len() as int) =~= v@);
    let rest = string_from_chars(cur.as_slice());
    (lines, rest)
}

} // verus!

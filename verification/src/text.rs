use vstd::prelude::*;
use vstd::string::StrSliceExecFns;

verus! {

/// The Unicode uppercase mapping of one character.
pub uninterp spec fn char_uppercase(c: char) -> Seq<char>;

/// Relies on char::to_uppercase: the uppercase mapping of a character,
/// one or more characters long, a function of the character alone. The
/// iterator it returns is collected into a string.
#[verifier::external_body]
pub(crate) fn to_uppercase_str(c: char) -> (r: String)
    ensures
        r@ == char_uppercase(c),
        r@.len() >= 1,
{
    c.to_uppercase().to_string()
}

/// Whether a character counts as white space.
pub uninterp spec fn char_is_whitespace(c: char) -> bool;

/// Relies on char::is_whitespace: whether the character has the Unicode
/// White_Space property, a function of the character alone.
#[verifier::external_body]
pub(crate) fn is_whitespace_char(c: char) -> (r: bool)
    ensures
        r == char_is_whitespace(c),
{
    c.is_whitespace()
}

/// The string with its trailing white space removed.
pub open spec fn spec_trim_end(s: Seq<char>) -> Seq<char>
    decreases s.len(),
{
    if s.len() == 0 {
        s
    } else if char_is_whitespace(s.last()) {
        spec_trim_end(s.take(s.len() - 1))
    } else {
        s
    }
}

/// Removes trailing white space.
pub fn trim_end_str(s: &str) -> (r: &str)
    ensures
        r@ == spec_trim_end(s@),
{
    let n = s.unicode_len();
    let mut end = n;
    proof {
        assert(s@.take(n as int) =~= s@);
    }
    while end > 0 && is_whitespace_char(s.get_char(end - 1))
        invariant
            0 <= end <= n,
            n == s@.len(),
            spec_trim_end(s@) == spec_trim_end(s@.take(end as int)),
        decreases end,
    {
        proof {
            assert(s@.take(end as int).last() == s@[end - 1]);
            assert(s@.take(end as int).take(end - 1) =~= s@.take(end - 1));
        }
        end -= 1;
    }
    proof {
        if end > 0 {
            assert(s@.take(end as int).last() == s@[end - 1]);
        }
        assert(spec_trim_end(s@.take(end as int)) == s@.take(end as int));
    }
    s.substring_char(0, end)
}

/// The string with every occurrence of the two-character pattern `a b`
/// replaced by `rep`, scanning left to right without overlap.
pub open spec fn spec_replace_pair(s: Seq<char>, a: char, b: char, rep: Seq<char>) -> Seq<char>
    decreases s.len(),
{
    if s.len() < 2 {
        s
    } else if s[0] == a && s[1] == b {
        rep + spec_replace_pair(s.skip(2), a, b, rep)
    } else {
        seq![s[0]] + spec_replace_pair(s.skip(1), a, b, rep)
    }
}

/// Replaces every occurrence of the two-character pattern `a b` by `rep`.
pub fn replace_pair(s: &str, a: char, b: char, rep: &str) -> (r: String)
    ensures
        r@ == spec_replace_pair(s@, a, b, rep@),
{
    let n = s.unicode_len();
    let mut out = String::new();
    let mut i: usize = 0;
    proof {
        assert(s@.skip(0) =~= s@);
        assert(out@ + spec_replace_pair(s@, a, b, rep@) =~= spec_replace_pair(s@, a, b, rep@));
    }
    while i < n
        invariant
            0 <= i <= n,
            n == s@.len(),
            out@ + spec_replace_pair(s@.skip(i as int), a, b, rep@) == spec_replace_pair(
                s@,
                a,
                b,
                rep@,
            ),
        decreases n - i,
    {
        let ghost rem = s@.skip(i as int);
        if i + 1 < n && s.get_char(i) == a && s.get_char(i + 1) == b {
            proof {
                assert(rem[0] == s@[i as int] && rem[1] == s@[i as int + 1]);
                assert(rem.skip(2) =~= s@.skip(i as int + 2));
            }
            out.append(rep);
            i += 2;
        } else {
            proof {
                assert(rem[0] == s@[i as int]);
                assert(rem.skip(1) =~= s@.skip(i as int + 1));
                assert(s@.subrange(i as int, i as int + 1) =~= seq![s@[i as int]]);
            }
            let piece = s.substring_char(i, i + 1);
            out.append(piece);
            proof {
                if rem.len() >= 2 {
                    assert(!(rem[0] == a && rem[1] == b));
                }
            }
            i += 1;
        }
    }
    proof {
        assert(s@.skip(n as int) =~= Seq::<char>::empty());
        assert(out@ =~= spec_replace_pair(s@, a, b, rep@));
    }
    out
}

/// Finds the first occurrence of a character.
pub fn find_char(s: &str, c: char) -> (r: Option<usize>)
    ensures
        r matches Some(i) ==> i < s@.len() && s@[i as int] == c && (forall|k: int|
            0 <= k < i ==> s@[k] != c),
        r is None ==> forall|k: int| 0 <= k < s@.len() ==> s@[k] != c,
{
    let n = s.unicode_len();
    let mut i: usize = 0;
    while i < n
        invariant
            0 <= i <= n,
            n == s@.len(),
            forall|k: int| 0 <= k < i ==> s@[k] != c,
        decreases n - i,
    {
        if s.get_char(i) == c {
            return Some(i);
        }
        i += 1;
    }
    None
}

/// Finds the last occurrence of a character.
pub fn rfind_char(s: &str, c: char) -> (r: Option<usize>)
    ensures
        r matches Some(i) ==> i < s@.len() && s@[i as int] == c && (forall|k: int|
            i < k < s@.len() ==> s@[k] != c),
        r is None ==> forall|k: int| 0 <= k < s@.len() ==> s@[k] != c,
{
    let n = s.unicode_len();
    let mut i = n;
    while i > 0
        invariant
            0 <= i <= n,
            n == s@.len(),
            forall|k: int| i <= k < s@.len() ==> s@[k] != c,
        decreases i,
    {
        i -= 1;
        if s.get_char(i) == c {
            return Some(i);
        }
    }
    None
}

/// Character-wise string equality.
pub fn str_eq(a: &str, b: &str) -> (r: bool)
    ensures
        r == (a@ == b@),
{
    let n = a.unicode_len();
    let m = b.unicode_len();
    if n != m {
        return false;
    }
    let mut i: usize = 0;
    while i < n
        invariant
            0 <= i <= n,
            n == a@.len(),
            n == b@.len(),
            forall|k: int| 0 <= k < i ==> a@[k] == b@[k],
        decreases n - i,
    {
        if a.get_char(i) != b.get_char(i) {
            return false;
        }
        i += 1;
    }
    proof {
        assert(a@ =~= b@);
    }
    true
}

/// The decimal digit character for a value below ten.
pub open spec fn spec_digit(d: int) -> char {
    if d == 0 {
        '0'
    } else if d == 1 {
        '1'
    } else if d == 2 {
        '2'
    } else if d == 3 {
        '3'
    } else if d == 4 {
        '4'
    } else if d == 5 {
        '5'
    } else if d == 6 {
        '6'
    } else if d == 7 {
        '7'
    } else if d == 8 {
        '8'
    } else {
        '9'
    }
}

/// The decimal representation of a natural number.
pub open spec fn spec_udec(n: nat) -> Seq<char>
    decreases n,
{
    if n < 10 {
        seq![spec_digit(n as int)]
    } else {
        spec_udec(n / 10).push(spec_digit((n % 10) as int))
    }
}

/// The decimal representation of a signed number.
pub open spec fn spec_i64_dec(n: int) -> Seq<char> {
    if n < 0 {
        seq!['-'] + spec_udec((-n) as nat)
    } else {
        spec_udec(n as nat)
    }
}

/// Appends one decimal digit.
fn push_digit(out: &mut String, d: u64)
    requires
        d < 10,
    ensures
        final(out)@ == old(out)@ + seq![spec_digit(d as int)],
{
    proof {
        reveal_strlit("0");
        reveal_strlit("1");
        reveal_strlit("2");
        reveal_strlit("3");
        reveal_strlit("4");
        reveal_strlit("5");
        reveal_strlit("6");
        reveal_strlit("7");
        reveal_strlit("8");
        reveal_strlit("9");
    }
    if d == 0 {
        out.append("0");
    } else if d == 1 {
        out.append("1");
    } else if d == 2 {
        out.append("2");
    } else if d == 3 {
        out.append("3");
    } else if d == 4 {
        out.append("4");
    } else if d == 5 {
        out.append("5");
    } else if d == 6 {
        out.append("6");
    } else if d == 7 {
        out.append("7");
    } else if d == 8 {
        out.append("8");
    } else {
        out.append("9");
    }
}

/// Appends the decimal representation of an unsigned number.
fn push_decimal_u64(out: &mut String, n: u64)
    ensures
        final(out)@ == old(out)@ + spec_udec(n as nat),
    decreases n,
{
    if n < 10 {
        push_digit(out, n);
    } else {
        push_decimal_u64(out, n / 10);
        push_digit(out, n % 10);
        proof {
            assert(old(out)@ + spec_udec((n / 10) as nat) + seq![
                spec_digit((n % 10) as int),
            ] =~= old(out)@ + spec_udec(n as nat));
        }
    }
}

/// The decimal representation of a signed number, as a string.
pub fn i64_to_string(n: i64) -> (r: String)
    ensures
        r@ == spec_i64_dec(n as int),
{
    let mut out = String::new();
    if n < 0 {
        out.append("-");
        let m: u64 = (-(n as i128)) as u64;
        proof {
            assert(m == -(n as int));
            reveal_strlit("-");
        }
        push_decimal_u64(&mut out, m);
        proof {
            assert(out@ =~= spec_i64_dec(n as int));
        }
    } else {
        push_decimal_u64(&mut out, n as u64);
        proof {
            assert(out@ =~= spec_i64_dec(n as int));
        }
    }
    out
}

/// Whether the pattern stands in `s` at position `i`.
pub open spec fn spec_matches_at(s: Seq<char>, pat: Seq<char>, i: int) -> bool {
    0 <= i && i + pat.len() <= s.len() && s.subrange(i, i + pat.len()) == pat
}

/// Finds the first position where the pattern occurs.
pub fn find_str(s: &str, pat: &str) -> (r: Option<usize>)
    ensures
        r matches Some(i) ==> spec_matches_at(s@, pat@, i as int) && (forall|j: int|
            0 <= j < i ==> !spec_matches_at(s@, pat@, j)),
        r is None ==> forall|j: int| 0 <= j <= s@.len() - pat@.len() ==> !spec_matches_at(
            s@,
            pat@,
            j,
        ),
{
    let n = s.unicode_len();
    let m = pat.unicode_len();
    if m > n {
        return None;
    }
    let mut i: usize = 0;
    while i <= n - m
        invariant
            0 <= i <= n - m + 1,
            m <= n,
            n == s@.len(),
            m == pat@.len(),
            forall|j: int| 0 <= j < i ==> !spec_matches_at(s@, pat@, j),
        decreases n + 1 - i,
    {
        let mut j: usize = 0;
        let mut hit = true;
        while j < m
            invariant
                0 <= j <= m,
                i + m <= n,
                n == s@.len(),
                m == pat@.len(),
                hit <==> (forall|k: int| 0 <= k < j ==> s@[i + k] == pat@[k]),
            decreases m - j,
        {
            if s.get_char(i + j) != pat.get_char(j) {
                hit = false;
                proof {
                    assert(s@[i + j] != pat@[j as int]);
                }
                j = m;
            } else {
                proof {
                    assert(s@[i + j] == pat@[j as int]);
                }
                j += 1;
            }
        }
        if hit {
            proof {
                assert(s@.subrange(i as int, i + m) =~= pat@);
            }
            return Some(i);
        }
        proof {
            if spec_matches_at(s@, pat@, i as int) {
                assert(forall|k: int|
                    0 <= k < m ==> #[trigger] s@.subrange(i as int, i + m)[k] == s@[i + k]);
                assert(false);
            }
        }
        i += 1;
    }
    None
}

} // verus!

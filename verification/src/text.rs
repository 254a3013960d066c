//! Verified text utilities shared by the scanners: splitting on a separator,
//! prefix and containment tests, decimal rendering and ASCII case folding.

use vstd::prelude::*;

verus! {

/// Splits `s` on `sep`.  The result always has at least one piece; a separator
/// at the end yields a trailing empty piece.
pub open spec fn split_seq(s: Seq<char>, sep: char) -> Seq<Seq<char>>
    decreases s.len(),
{
    if s.len() == 0 {
        seq![s]
    } else if s[0] == sep {
        seq![Seq::<char>::empty()] + split_seq(s.subrange(1, s.len() as int), sep)
    } else {
        let rest = split_seq(s.subrange(1, s.len() as int), sep);
        seq![seq![s[0]] + rest[0]] + rest.subrange(1, rest.len() as int)
    }
}

pub proof fn lemma_split_len(s: Seq<char>, sep: char)
    ensures
        split_seq(s, sep).len() >= 1,
    decreases s.len(),
{
    if s.len() == 0 {
    } else if s[0] == sep {
        lemma_split_len(s.subrange(1, s.len() as int), sep);
    } else {
        lemma_split_len(s.subrange(1, s.len() as int), sep);
    }
}

/// A sequence without the separator splits into itself alone.
pub proof fn lemma_split_no_sep(s: Seq<char>, sep: char)
    requires
        forall|j: int| 0 <= j < s.len() ==> s[j] != sep,
    ensures
        split_seq(s, sep) =~= seq![s],
    decreases s.len(),
{
    if s.len() == 0 {
        assert(split_seq(s, sep) == seq![s]);
    } else {
        let s1 = s.subrange(1, s.len() as int);
        lemma_split_no_sep(s1, sep);
        lemma_split_len(s1, sep);
        assert(seq![s[0]] + s1 =~= s);
    }
}

/// Splitting at the first separator: the piece before it, then the split of
/// what follows it.
pub proof fn lemma_split_at_first(s: Seq<char>, sep: char, i: int)
    requires
        0 <= i < s.len(),
        s[i] == sep,
        forall|j: int| 0 <= j < i ==> s[j] != sep,
    ensures
        split_seq(s, sep) =~= seq![s.subrange(0, i)] + split_seq(
            s.subrange(i + 1, s.len() as int),
            sep,
        ),
    decreases i,
{
    let s1 = s.subrange(1, s.len() as int);
    if i == 0 {
        assert(s.subrange(0, 0) =~= Seq::<char>::empty());
        assert(s.subrange(1, s.len() as int) =~= s1);
    } else {
        lemma_split_at_first(s1, sep, i - 1);
        lemma_split_len(s1.subrange(i, s1.len() as int), sep);
        let rest = split_seq(s1, sep);
        assert(rest =~= seq![s1.subrange(0, i - 1)] + split_seq(
            s1.subrange(i, s1.len() as int),
            sep,
        ));
        assert(seq![s[0]] + rest[0] =~= s.subrange(0, i));
        assert(s1.subrange(i, s1.len() as int) =~= s.subrange(i + 1, s.len() as int));
        assert(rest.subrange(1, rest.len() as int) =~= split_seq(
            s.subrange(i + 1, s.len() as int),
            sep,
        ));
    }
}

/// Splits a string on a separator character.
pub fn split_str(s: &str, sep: char) -> (parts: Vec<String>)
    ensures
        parts.deep_view() == split_seq(s@, sep),
{
    let n = s.unicode_len();
    let mut parts: Vec<String> = Vec::new();
    let mut start: usize = 0;
    let mut i: usize = 0;
    proof {
        assert(s@.subrange(0, n as int) =~= s@);
        assert(parts.deep_view() =~= Seq::<Seq<char>>::empty());
    }
    while i < n
        invariant
            0 <= start <= i <= n == s@.len(),
            forall|j: int| start <= j < i ==> s@[j] != sep,
            split_seq(s@, sep) =~= parts.deep_view() + split_seq(
                s@.subrange(start as int, n as int),
                sep,
            ),
        decreases n - i,
    {
        if s.get_char(i) == sep {
            let piece = s.substring_char(start, i).to_owned();
            proof {
                lemma_split_at_first(s@.subrange(start as int, n as int), sep, i - start);
                assert(s@.subrange(start as int, n as int).subrange(0, i - start) =~= s@.subrange(
                    start as int,
                    i as int,
                ));
                assert(s@.subrange(start as int, n as int).subrange(
                    i - start + 1,
                    n - start,
                ) =~= s@.subrange(i + 1, n as int));
            }
            let ghost old_parts = parts.deep_view();
            parts.push(piece);
            proof {
                assert(parts.deep_view() =~= old_parts.push(s@.subrange(start as int, i as int)));
                assert(old_parts.push(s@.subrange(start as int, i as int)) =~= old_parts + seq![
                    s@.subrange(start as int, i as int),
                ]);
            }
            start = i + 1;
        }
        i = i + 1;
    }
    let piece = s.substring_char(start, n).to_owned();
    proof {
        lemma_split_no_sep(s@.subrange(start as int, n as int), sep);
    }
    let ghost old_parts = parts.deep_view();
    parts.push(piece);
    proof {
        assert(parts.deep_view() =~= old_parts + seq![s@.subrange(start as int, n as int)]);
    }
    parts
}

/// The pieces joined back with the separator between them.
pub open spec fn join_seq(parts: Seq<Seq<char>>, sep: char) -> Seq<char>
    decreases parts.len(),
{
    if parts.len() == 0 {
        Seq::empty()
    } else if parts.len() == 1 {
        parts[0]
    } else {
        parts[0] + seq![sep] + join_seq(parts.subrange(1, parts.len() as int), sep)
    }
}

/// Joining undoes splitting.
pub proof fn lemma_join_split(s: Seq<char>, sep: char)
    ensures
        join_seq(split_seq(s, sep), sep) =~= s,
    decreases s.len(),
{
    if s.len() == 0 {
    } else {
        let s1 = s.subrange(1, s.len() as int);
        lemma_join_split(s1, sep);
        lemma_split_len(s1, sep);
        let rest = split_seq(s1, sep);
        if s[0] == sep {
            let parts = seq![Seq::<char>::empty()] + rest;
            assert(split_seq(s, sep) == parts);
            assert(parts.len() >= 2);
            assert(parts[0] =~= Seq::<char>::empty());
            assert(parts.subrange(1, parts.len() as int) =~= rest);
            assert(join_seq(parts, sep) =~= parts[0] + seq![sep] + join_seq(rest, sep));
            assert(seq![s[0]] =~= seq![sep]);
            assert(s =~= seq![s[0]] + s1);
        } else {
            let parts = seq![seq![s[0]] + rest[0]] + rest.subrange(1, rest.len() as int);
            assert(split_seq(s, sep) == parts);
            if rest.len() == 1 {
                assert(parts.len() == 1);
                assert(join_seq(rest, sep) == rest[0]);
                assert(join_seq(parts, sep) =~= seq![s[0]] + rest[0]);
                assert(s =~= seq![s[0]] + s1);
            } else {
                assert(parts.len() >= 2);
                assert(parts.subrange(1, parts.len() as int) =~= rest.subrange(
                    1,
                    rest.len() as int,
                ));
                assert(join_seq(parts, sep) =~= (seq![s[0]] + rest[0]) + seq![sep] + join_seq(
                    rest.subrange(1, rest.len() as int),
                    sep,
                ));
                assert(join_seq(rest, sep) =~= rest[0] + seq![sep] + join_seq(
                    rest.subrange(1, rest.len() as int),
                    sep,
                ));
                assert(s =~= seq![s[0]] + s1);
                assert(join_seq(parts, sep) =~= seq![s[0]] + join_seq(rest, sep));
            }
        }
    }
}

/// `p` is a prefix of `s`.
pub open spec fn has_prefix(s: Seq<char>, p: Seq<char>) -> bool {
    s.len() >= p.len() && s.subrange(0, p.len() as int) == p
}

/// Prefix test over the character views of two strings.
pub fn str_has_prefix(s: &str, p: &str) -> (r: bool)
    ensures
        r == has_prefix(s@, p@),
{
    let n = s.unicode_len();
    let m = p.unicode_len();
    if m > n {
        return false;
    }
    let mut i: usize = 0;
    while i < m
        invariant
            0 <= i <= m <= n,
            n == s@.len(),
            m == p@.len(),
            forall|j: int| 0 <= j < i ==> s@[j] == p@[j],
        decreases m - i,
    {
        if s.get_char(i) != p.get_char(i) {
            assert(s@.subrange(0, m as int)[i as int] != p@[i as int]);
            return false;
        }
        i = i + 1;
    }
    assert(s@.subrange(0, m as int) =~= p@);
    true
}

/// The character `c` occurs in `s`.
pub fn str_contains_char(s: &str, c: char) -> (r: bool)
    ensures
        r == s@.contains(c),
{
    let n = s.unicode_len();
    let mut i: usize = 0;
    while i < n
        invariant
            0 <= i <= n == s@.len(),
            forall|j: int| 0 <= j < i ==> s@[j] != c,
        decreases n - i,
    {
        if s.get_char(i) == c {
            return true;
        }
        i = i + 1;
    }
    false
}

pub open spec fn spec_digit_char(d: nat) -> char {
    if d == 0 {
        '0'
    } else if d == 1 {
        '1'
    } else if d == 2 {
        '2'
    } else if d == 3 {
        '3'
    } else if d == 4 {
        '4'
    } else if d == 5 {
        '5'
    } else if d == 6 {
        '6'
    } else if d == 7 {
        '7'
    } else if d == 8 {
        '8'
    } else {
        '9'
    }
}

/// The decimal rendering of `n`, most significant digit first.
pub open spec fn dec_digits(n: nat) -> Seq<char>
    decreases n,
{
    if n < 10 {
        seq![spec_digit_char(n)]
    } else {
        dec_digits(n / 10).push(spec_digit_char(n % 10))
    }
}

fn digit_str(d: usize) -> (r: &'static str)
    requires
        d < 10,
    ensures
        r@ =~= seq![spec_digit_char(d as nat)],
{
    let r = match d {
        0 => "0",
        1 => "1",
        2 => "2",
        3 => "3",
        4 => "4",
        5 => "5",
        6 => "6",
        7 => "7",
        8 => "8",
        _ => "9",
    };
    proof {
        reveal_strlit("0");
        reveal_strlit("1");
        reveal_strlit("2");
        reveal_strlit("3");
        reveal_strlit("4");
        reveal_strlit("5");
        reveal_strlit("6");
        reveal_strlit("7");
        reveal_strlit("8");
        reveal_strlit("9");
    }
    r
}

/// Renders `n` in decimal.
pub fn u64_to_string(n: u64) -> (s: String)
    ensures
        s@ == dec_digits(n as nat),
    decreases n,
{
    if n < 10 {
        digit_str((n % 10) as usize).to_owned()
    } else {
        let mut s = u64_to_string(n / 10);
        s.append(digit_str((n % 10) as usize));
        proof {
            assert(s@ =~= dec_digits((n / 10) as nat).push(spec_digit_char((n % 10) as nat)));
        }
        s
    }
}

/// Equality of two strings' character views.
pub fn str_eq(a: &str, b: &str) -> (r: bool)
    ensures
        r == (a@ == b@),
{
    let n = a.unicode_len();
    let m = b.unicode_len();
    if n != m {
        return false;
    }
    let mut i: usize = 0;
    while i < n
        invariant
            0 <= i <= n == a@.len(),
            n == b@.len(),
            forall|j: int| 0 <= j < i ==> a@[j] == b@[j],
        decreases n - i,
    {
        if a.get_char(i) != b.get_char(i) {
            return false;
        }
        i = i + 1;
    }
    proof {
        assert(a@ =~= b@);
    }
    true
}

/// ASCII lower-casing of one character; everything but `'A'..='Z'` is kept.
pub open spec fn spec_lower_char(c: char) -> char {
    if c == 'A' {
        'a'
    } else if c == 'B' {
        'b'
    } else if c == 'C' {
        'c'
    } else if c == 'D' {
        'd'
    } else if c == 'E' {
        'e'
    } else if c == 'F' {
        'f'
    } else if c == 'G' {
        'g'
    } else if c == 'H' {
        'h'
    } else if c == 'I' {
        'i'
    } else if c == 'J' {
        'j'
    } else if c == 'K' {
        'k'
    } else if c == 'L' {
        'l'
    } else if c == 'M' {
        'm'
    } else if c == 'N' {
        'n'
    } else if c == 'O' {
        'o'
    } else if c == 'P' {
        'p'
    } else if c == 'Q' {
        'q'
    } else if c == 'R' {
        'r'
    } else if c == 'S' {
        's'
    } else if c == 'T' {
        't'
    } else if c == 'U' {
        'u'
    } else if c == 'V' {
        'v'
    } else if c == 'W' {
        'w'
    } else if c == 'X' {
        'x'
    } else if c == 'Y' {
        'y'
    } else if c == 'Z' {
        'z'
    } else {
        c
    }
}

pub fn lower_char(c: char) -> (r: char)
    ensures
        r == spec_lower_char(c),
{
    match c {
        'A' => 'a',
        'B' => 'b',
        'C' => 'c',
        'D' => 'd',
        'E' => 'e',
        'F' => 'f',
        'G' => 'g',
        'H' => 'h',
        'I' => 'i',
        'J' => 'j',
        'K' => 'k',
        'L' => 'l',
        'M' => 'm',
        'N' => 'n',
        'O' => 'o',
        'P' => 'p',
        'Q' => 'q',
        'R' => 'r',
        'S' => 's',
        'T' => 't',
        'U' => 'u',
        'V' => 'v',
        'W' => 'w',
        'X' => 'x',
        'Y' => 'y',
        'Z' => 'z',
        _ => c,
    }
}

/// Case-insensitive equality of two character sequences.
pub open spec fn eq_ci(a: Seq<char>, b: Seq<char>) -> bool {
    a.len() == b.len() && forall|i: int|
        0 <= i < a.len() ==> spec_lower_char(a[i]) == spec_lower_char(b[i])
}

/// `needle` occurs case-insensitively in `hay` wholly before position `upto`.
pub open spec fn occurs_ci_before(hay: Seq<char>, needle: Seq<char>, upto: int) -> bool {
    exists|j: int|
        0 <= j && j + needle.len() <= upto <= hay.len() && eq_ci(
            #[trigger] hay.subrange(j, j + needle.len() as int),
            needle,
        )
}

/// Case-insensitive occurrence test of `needle` in the first `upto` characters
/// of `hay`.
pub fn find_ci_before(hay: &str, needle: &str, upto: usize) -> (r: bool)
    requires
        upto <= hay@.len(),
    ensures
        r == occurs_ci_before(hay@, needle@, upto as int),
{
    let m = needle.unicode_len();
    if m > upto {
        return false;
    }
    let mut j: usize = 0;
    while j <= upto - m
        invariant
            0 <= j,
            j + m <= upto + 1,
            m <= upto <= hay@.len(),
            m == needle@.len(),
            forall|t: int|
                0 <= t < j ==> !eq_ci(#[trigger] hay@.subrange(t, t + needle@.len() as int), needle@),
        decreases upto - j,
    {
        let mut k: usize = 0;
        let mut all_eq = true;
        while k < m
            invariant
                0 <= k <= m == needle@.len(),
                0 <= j,
                j + m <= upto <= hay@.len(),
                all_eq ==> forall|t: int|
                    0 <= t < k ==> spec_lower_char(hay@[j + t]) == spec_lower_char(needle@[t]),
                !all_eq ==> k == m,
                !all_eq ==> exists|t: int|
                    0 <= t < m && spec_lower_char(#[trigger] hay@[j + t]) != spec_lower_char(
                        needle@[t],
                    ),
            decreases m - k,
        {
            let hc = lower_char(hay.get_char(j + k));
            let nc = lower_char(needle.get_char(k));
            if hc != nc {
                assert(spec_lower_char(hay@[j + k as int]) != spec_lower_char(needle@[k as int]));
                all_eq = false;
                k = m;
            } else {
                assert(spec_lower_char(hay@[j + k as int]) == spec_lower_char(needle@[k as int]));
                assert forall|t: int|
                    0 <= t < k + 1 implies spec_lower_char(hay@[j + t]) == spec_lower_char(
                    needle@[t],
                ) by {
                    if t < k {
                        assert(spec_lower_char(hay@[j + t]) == spec_lower_char(needle@[t]));
                    } else {
                        assert(t == k);
                    }
                }
                k = k + 1;
            }
        }
        if all_eq {
            proof {
                let sub = hay@.subrange(j as int, j + needle@.len() as int);
                assert(forall|t: int| 0 <= t < m ==> sub[t] == hay@[j + t]);
                assert(eq_ci(sub, needle@));
            }
            return true;
        }
        proof {
            let t = choose|t: int|
                0 <= t < m && spec_lower_char(#[trigger] hay@[j + t]) != spec_lower_char(
                    needle@[t],
                );
            let sub = hay@.subrange(j as int, j + needle@.len() as int);
            assert(sub[t] == hay@[j + t]);
            assert(!eq_ci(sub, needle@));
        }
        j = j + 1;
    }
    proof {
        assert forall|t: int|
            0 <= t && t + needle@.len() <= upto implies !eq_ci(
            #[trigger] hay@.subrange(t, t + needle@.len() as int),
            needle@,
        ) by {
            assert(t < j);
        }
    }
    false
}

} // verus!

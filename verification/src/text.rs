//! Character and string primitives shared by the rest of the library, and the
//! trusted wrappers over the few std text functions that vstd leaves unspecified.
use vstd::prelude::*;
use vstd::string::*;

verus! {

/// `c` is one of `0`..`9`.
pub open spec fn char_is_ascii_digit(c: char) -> bool {
    '0' <= c && c <= '9'
}

/// The value of an ASCII digit (0 for any other character).
pub open spec fn digit_value(c: char) -> nat {
    if char_is_ascii_digit(c) {
        (c as nat - '0' as nat) as nat
    } else {
        0
    }
}

/// The number written by a string of decimal digits.
pub open spec fn digits_value(s: Seq<char>) -> nat
    decreases s.len(),
{
    if s.len() == 0 {
        0
    } else {
        digits_value(s.drop_last()) * 10 + digit_value(s.last())
    }
}

pub proof fn lemma_digits_value_prefix(t: Seq<char>, k: int)
    requires
        0 < k <= t.len(),
    ensures
        digits_value(t.take(k)) == digits_value(t.take(k - 1)) * 10 + digit_value(t[k - 1]),
{
    assert(t.take(k).drop_last() =~= t.take(k - 1));
}

/// A longer string of digits never has a smaller value than its prefix.
pub proof fn lemma_digits_value_monotone(t: Seq<char>, k: int)
    requires
        0 <= k <= t.len(),
    ensures
        digits_value(t) >= digits_value(t.take(k)),
    decreases t.len() - k,
{
    if k < t.len() {
        lemma_digits_value_monotone(t, k + 1);
        lemma_digits_value_prefix(t, k + 1);
    } else {
        assert(t.take(k) =~= t);
    }
}

/// What `char::is_numeric` answers for `c`: whether `c` belongs to one of the
/// Unicode general categories for numbers (Nd, Nl, No).
pub uninterp spec fn unicode_numeric(c: char) -> bool;

/// Whether `c` is numeric: among ASCII characters exactly the digits `0`..`9`
/// are (they are the only ASCII characters in the categories Nd, Nl, No);
/// for the others, what `char::is_numeric` answers.
pub open spec fn numeric(c: char) -> bool {
    if (c as u32) < 128 {
        char_is_ascii_digit(c)
    } else {
        unicode_numeric(c)
    }
}

/// Calls `char::is_numeric`. The contract claims that the answer depends on
/// `c` alone, and that among ASCII characters exactly the digits are numeric.
#[verifier::external_body]
pub(crate) fn is_numeric(c: char) -> (r: bool)
    ensures
        r == numeric(c),
        (c as u32) >= 128 ==> r == unicode_numeric(c),
{
    c.is_numeric()
}

/// The ASCII lower case of `c` (other characters are kept).
pub open spec fn ascii_lower(c: char) -> char {
    if 'A' <= c && c <= 'Z' {
        ((c as u32) + 32) as char
    } else {
        c
    }
}

/// What `str::to_lowercase` gives for the characters `s`.
pub uninterp spec fn unicode_lowercase(s: Seq<char>) -> Seq<char>;

/// The lower case of `s`: an ASCII string is mapped character by character
/// to its ASCII lower case; any other string as `str::to_lowercase` maps it.
pub open spec fn lowercase_of(s: Seq<char>) -> Seq<char> {
    if vstd::utf8::is_ascii_chars(s) {
        s.map_values(|c: char| ascii_lower(c))
    } else {
        unicode_lowercase(s)
    }
}

/// Calls `str::to_lowercase`. The contract claims that the result depends on
/// the characters of `s` alone, and that an ASCII string is mapped character
/// by character to its ASCII lower case, as the documentation of
/// `to_lowercase` and of `char::to_ascii_lowercase` shows.
#[verifier::external_body]
pub(crate) fn lowercase(s: &str) -> (r: String)
    ensures
        r@ == lowercase_of(s@),
        !vstd::utf8::is_ascii_chars(s@) ==> r@ == unicode_lowercase(s@),
{
    s.to_lowercase()
}

/// `p` is a prefix of `s`.
pub open spec fn has_prefix(s: Seq<char>, p: Seq<char>) -> bool {
    p.len() <= s.len() && s.take(p.len() as int) == p
}

/// `p` occurs somewhere in `s`.
pub open spec fn has_infix(s: Seq<char>, p: Seq<char>) -> bool {
    exists|i: int| 0 <= i && i + p.len() <= s.len() && #[trigger] s.subrange(i, i + p.len()) == p
}

/// `s` with every leading repetition of the non-empty pattern `p` removed, as
/// `str::trim_start_matches` does.
pub open spec fn trim_start_all(s: Seq<char>, p: Seq<char>) -> Seq<char>
    decreases s.len(),
{
    if p.len() > 0 && has_prefix(s, p) {
        trim_start_all(s.skip(p.len() as int), p)
    } else {
        s
    }
}

/// Whether the characters of `s` from index `from` on begin with `p`.
pub fn starts_with_at(s: &str, from: usize, p: &str) -> (r: bool)
    requires
        from <= s@.len(),
    ensures
        r == has_prefix(s@.skip(from as int), p@),
{
    let n = s.unicode_len();
    let m = p.unicode_len();
    if m > n - from {
        return false;
    }
    let mut i: usize = 0;
    while i < m
        invariant
            i <= m,
            m == p@.len(),
            n == s@.len(),
            from + m <= n,
            forall|j: int| 0 <= j < i ==> s@[from + j] == p@[j],
        decreases m - i,
    {
        if s.get_char(from + i) != p.get_char(i) {
            assert(s@.skip(from as int).take(m as int)[i as int] != p@[i as int]);
            return false;
        }
        i = i + 1;
    }
    assert(s@.skip(from as int).take(m as int) =~= p@);
    true
}

/// Whether `s` begins with `p`.
pub fn starts_with(s: &str, p: &str) -> (r: bool)
    ensures
        r == has_prefix(s@, p@),
{
    assert(s@.skip(0) =~= s@);
    starts_with_at(s, 0, p)
}

/// Whether `a` and `b` hold the same characters.
pub fn str_eq(a: &str, b: &str) -> (r: bool)
    ensures
        r == (a@ == b@),
{
    let n = a.unicode_len();
    if n != b.unicode_len() {
        return false;
    }
    let r = starts_with(a, b);
    proof {
        assert(a@.take(n as int) =~= a@);
    }
    r
}

/// Whether `p` occurs in `s`, as `str::contains` answers.
pub fn contains(s: &str, p: &str) -> (r: bool)
    ensures
        r == has_infix(s@, p@),
{
    let n = s.unicode_len();
    let m = p.unicode_len();
    if m > n {
        return false;
    }
    let last = n - m;
    let mut i: usize = 0;
    while i < last
        invariant
            m <= n,
            n == s@.len(),
            m == p@.len(),
            last == n - m,
            i <= last,
            forall|j: int| 0 <= j < i ==> #[trigger] s@.subrange(j, j + m) != p@,
        decreases last - i,
    {
        if starts_with_at(s, i, p) {
            assert(s@.skip(i as int).take(m as int) =~= s@.subrange(i as int, i + m));
            return true;
        }
        assert(s@.skip(i as int).take(m as int) =~= s@.subrange(i as int, i + m));
        i = i + 1;
    }
    if starts_with_at(s, last, p) {
        assert(s@.skip(last as int).take(m as int) =~= s@.subrange(last as int, last + m));
        return true;
    }
    assert(s@.skip(last as int).take(m as int) =~= s@.subrange(last as int, last + m));
    proof {
        if has_infix(s@, p@) {
            let k = choose|k: int| 0 <= k && k + p@.len() <= s@.len() && #[trigger] s@.subrange(k, k + p@.len()) == p@;
            assert(s@.subrange(k, k + m) != p@);
        }
    }
    false
}

/// `s` with every leading repetition of `p` removed, as
/// `str::trim_start_matches` gives it.
pub fn trim_start_matches<'a>(s: &'a str, p: &str) -> (r: &'a str)
    requires
        p@.len() > 0,
    ensures
        r@ == trim_start_all(s@, p@),
{
    let n = s.unicode_len();
    let m = p.unicode_len();
    let mut from: usize = 0;
    assert(s@.skip(0) =~= s@);
    while from <= n && starts_with_at(s, from, p)
        invariant
            from <= n,
            n == s@.len(),
            m == p@.len(),
            m > 0,
            trim_start_all(s@, p@) == trim_start_all(s@.skip(from as int), p@),
        decreases n - from,
    {
        assert(s@.skip(from as int).skip(m as int) =~= s@.skip(from + m));
        from = from + m;
    }
    let r = s.substring_char(from, n);
    assert(r@ =~= s@.skip(from as int));
    r
}

/// The characters of the first `n` bytes of the UTF-8 encoding of `s`.
pub open spec fn byte_prefix(s: Seq<char>, n: nat) -> Seq<char> {
    vstd::utf8::decode_utf8(vstd::utf8::encode_utf8(s).subrange(0, n as int))
}

/// The first `n` bytes of `s`, as `&s[..n]` cuts them.
pub fn first_bytes(s: &str, n: usize) -> (r: &str)
    requires
        vstd::utf8::is_char_boundary(vstd::utf8::encode_utf8(s@), n as int),
    ensures
        r@ == byte_prefix(s@, n as nat),
        r.spec_bytes() == vstd::utf8::encode_utf8(s@).subrange(0, n as int),
{
    broadcast use vstd::utf8::group_utf8_lib;

    let (a, _) = s.split_at(n);
    assert(vstd::utf8::decode_utf8(vstd::utf8::encode_utf8(a@)) == a@);
    a
}

/// `c` is ASCII whitespace: space, tab, line feed, form feed or carriage
/// return, as `char::is_ascii_whitespace` has it.
pub open spec fn ascii_space(c: char) -> bool {
    c == ' ' || c == '\t' || c == '\n' || c == '\x0C' || c == '\r'
}

/// The words of `s`: its maximal runs of characters that are not ASCII
/// whitespace, in order, as `str::split_ascii_whitespace` yields them.
pub open spec fn ascii_words(s: Seq<char>) -> Seq<Seq<char>>
    decreases s.len(),
{
    if s.len() == 0 {
        Seq::empty()
    } else {
        let w = ascii_words(s.drop_last());
        let c = s.last();
        if ascii_space(c) {
            w
        } else if s.len() >= 2 && !ascii_space(s[s.len() - 2]) {
            w.update(w.len() - 1, w.last().push(c))
        } else {
            w.push(seq![c])
        }
    }
}

/// The characters of each string.
pub open spec fn strings_view(v: Seq<String>) -> Seq<Seq<char>> {
    v.map_values(|s: String| s@)
}

/// The words of `s`, as `str::split_ascii_whitespace` yields them.
pub fn split_ascii_whitespace(s: &str) -> (r: Vec<String>)
    ensures
        strings_view(r@) == ascii_words(s@),
{
    let n = s.unicode_len();
    let mut done: Vec<String> = Vec::new();
    let mut cur = String::new();
    let mut i: usize = 0;
    while i < n
        invariant
            i <= n,
            n == s@.len(),
            (i > 0 && !ascii_space(s@[i - 1])) ==> cur@.len() > 0 && ascii_words(s@.take(i as int))
                == strings_view(done@).push(cur@),
            !(i > 0 && !ascii_space(s@[i - 1])) ==> cur@.len() == 0 && ascii_words(
                s@.take(i as int),
            ) == strings_view(done@),
        decreases n - i,
    {
        let c = s.get_char(i);
        let ghost t = s@.take(i as int + 1);
        proof {
            assert(t.drop_last() =~= s@.take(i as int));
            assert(t.last() == c);
        }
        if c == ' ' || c == '\t' || c == '\n' || c == '\x0C' || c == '\r' {
            if cur.as_str().unicode_len() > 0 {
                let mut w = String::new();
                std::mem::swap(&mut w, &mut cur);
                let ghost d0 = done@;
                done.push(w);
                assert(strings_view(done@) =~= strings_view(d0).push(w@));
            }
        } else {
            let ghost c0 = cur@;
            proof {
                assert(t.len() >= 2 ==> t[t.len() - 2] == s@[i - 1]);
            }
            cur.append(char_string(c).as_str());
            proof {
                assert(cur@ =~= c0.push(c));
                if i > 0 && !ascii_space(s@[i - 1]) {
                    let w = strings_view(done@).push(c0);
                    assert(w.update(w.len() - 1, w.last().push(c)) =~= strings_view(done@).push(
                        cur@,
                    ));
                } else {
                    assert(cur@ =~= seq![c]);
                }
            }
        }
        i = i + 1;
    }
    if cur.as_str().unicode_len() > 0 {
        done.push(cur);
    }
    proof {
        assert(s@.take(n as int) =~= s@);
    }
    assert(strings_view(done@) =~= ascii_words(s@));
    done
}

/// A string of the single character `c`: calls `char::to_string`, whose
/// result is the one-character string.
#[verifier::external_body]
pub(crate) fn char_string(c: char) -> (r: String)
    ensures
        r@ == seq![c],
{
    c.to_string()
}

/// A copy of a list of key/value pairs.
pub fn clone_pairs(v: &Vec<(String, String)>) -> (r: Vec<(String, String)>)
    ensures
        r@ == v@,
{
    let mut r: Vec<(String, String)> = Vec::new();
    let mut i: usize = 0;
    while i < v.len()
        invariant
            i <= v@.len(),
            r@ == v@.take(i as int),
        decreases v@.len() - i,
    {
        let (k, x) = (&v[i].0, &v[i].1);
        r.push((k.clone(), x.clone()));
        assert(r@ =~= v@.take(i as int + 1));
        i = i + 1;
    }
    assert(v@.take(i as int) =~= v@);
    r
}


/// Law: the words of a text are non-empty and hold no ASCII whitespace;
/// where the text ends with a character that is no whitespace, there is a
/// word and that character ends the last one.
pub proof fn lemma_words_have_no_space(s: Seq<char>)
    ensures
        forall|i: int, j: int|
            0 <= i < ascii_words(s).len() && 0 <= j < ascii_words(s)[i].len() ==> !ascii_space(
                #[trigger] ascii_words(s)[i][j],
            ),
        forall|i: int| 0 <= i < ascii_words(s).len() ==> #[trigger] ascii_words(s)[i].len() > 0,
        s.len() > 0 && !ascii_space(s.last()) ==> ascii_words(s).len() > 0 && ascii_words(
            s,
        ).last().last() == s.last(),
    decreases s.len(),
{
    if s.len() > 0 {
        lemma_words_have_no_space(s.drop_last());
        let w = ascii_words(s.drop_last());
        let c = s.last();
        if !ascii_space(c) && s.len() >= 2 && !ascii_space(s[s.len() - 2]) {
            assert(s.drop_last().last() == s[s.len() - 2]);
            let n = w.update(w.len() - 1, w.last().push(c));
            assert forall|i: int, j: int|
                0 <= i < n.len() && 0 <= j < n[i].len() implies !ascii_space(#[trigger] n[i][j]) by {
                if i == w.len() - 1 && j == w.last().len() {
                    assert(n[i][j] == c);
                } else if i == w.len() - 1 {
                    assert(n[i][j] == w[i][j]);
                }
            }
        }
    }
}

/// Law: a space separates words: the words of two texts joined by a space
/// are the words of the first followed by those of the second.
pub proof fn lemma_words_split_at_space(s: Seq<char>, t: Seq<char>)
    ensures
        ascii_words(s + seq![' '] + t) == ascii_words(s) + ascii_words(t),
    decreases t.len(),
{
    let u = s + seq![' '] + t;
    if t.len() == 0 {
        assert(u.drop_last() =~= s);
        assert(ascii_words(t) =~= Seq::<Seq<char>>::empty());
        assert(ascii_words(s) + ascii_words(t) =~= ascii_words(s));
    } else {
        lemma_words_split_at_space(s, t.drop_last());
        assert(u.drop_last() =~= s + seq![' '] + t.drop_last());
        assert(u.last() == t.last());
        let c = t.last();
        let a = ascii_words(s);
        let b0 = ascii_words(t.drop_last());
        if ascii_space(c) {
            assert(ascii_words(u) =~= a + ascii_words(t));
        } else {
            let prev_u_nonspace = u.len() >= 2 && !ascii_space(u[u.len() - 2]);
            let prev_t_nonspace = t.len() >= 2 && !ascii_space(t[t.len() - 2]);
            if t.len() >= 2 {
                assert(u[u.len() - 2] == t[t.len() - 2]);
            } else {
                assert(u[u.len() - 2] == ' ');
            }
            assert(prev_u_nonspace == prev_t_nonspace);
            if prev_t_nonspace {
                lemma_words_have_no_space(t.drop_last());
                assert(t.drop_last().last() == t[t.len() - 2]);
                assert(b0.len() > 0);
                let wu = a + b0;
                assert(wu.update(wu.len() - 1, wu.last().push(c)) =~= a + b0.update(
                    b0.len() - 1,
                    b0.last().push(c),
                ));
            } else {
                assert((a + b0).push(seq![c]) =~= a + b0.push(seq![c]));
            }
        }
    }
}

} // verus!

use vstd::prelude::*;
use vstd::string::*;

verus! {

// ---------------------------------------------------------------------------
// Characters
// ---------------------------------------------------------------------------

/// Unicode `White_Space`: the characters that `char::is_whitespace` accepts.
pub open spec fn is_whitespace(c: char) -> bool {
    let u = c as u32;
    ||| 0x9 <= u <= 0xd
    ||| u == 0x20
    ||| u == 0x85
    ||| u == 0xa0
    ||| u == 0x1680
    ||| 0x2000 <= u <= 0x200a
    ||| u == 0x2028
    ||| u == 0x2029
    ||| u == 0x202f
    ||| u == 0x205f
    ||| u == 0x3000
}

/// Tests a character for Unicode white space.
pub fn is_whitespace_char(c: char) -> (b: bool)
    ensures
        b == is_whitespace(c),
{
    let u = c as u32;
    (0x9 <= u && u <= 0xd) || u == 0x20 || u == 0x85 || u == 0xa0 || u == 0x1680 || (0x2000
        <= u && u <= 0x200a) || u == 0x2028 || u == 0x2029 || u == 0x202f || u == 0x205f || u
        == 0x3000
}

/// The ASCII decimal digit for `d` (taken modulo ten).
pub open spec fn digit_char(d: nat) -> char {
    ((d % 10) + 48) as char
}

/// Whether `c` is one of the ASCII digits `0` to `9`.
pub open spec fn is_digit(c: char) -> bool {
    48 <= (c as u32) <= 57
}

/// The value of an ASCII digit.
pub open spec fn digit_value(c: char) -> nat {
    ((c as u32) - 48) as nat
}

// ---------------------------------------------------------------------------
// Strings and character vectors
// ---------------------------------------------------------------------------

/// `String::push`: the contract claims that the character is appended at the end and
/// nothing else changes.
#[verifier::external_body]
pub(crate) fn push_char(s: &mut String, c: char)
    ensures
        final(s)@ == old(s)@.push(c),
{
    s.push(c);
}

/// The characters of a string slice, in order.
pub fn chars_of(s: &str) -> (v: Vec<char>)
    ensures
        v@ == s@,
{
    let mut v: Vec<char> = Vec::new();
    for c in it: s.chars()
        invariant
            v@ == it.seq().take(it.index() as int),
    {
        v.push(c);
    }
    v
}

/// Appends the characters `chars[from..to]` to `s`.
pub fn push_chars(s: &mut String, chars: &Vec<char>, from: usize, to: usize)
    requires
        from <= to <= chars.len(),
    ensures
        final(s)@ == old(s)@ + chars@.subrange(from as int, to as int),
{
    let mut i = from;
    while i < to
        invariant
            from <= i <= to <= chars.len(),
            s@ == old(s)@ + chars@.subrange(from as int, i as int),
        decreases to - i,
    {
        push_char(s, chars[i]);
        i = i + 1;
        assert(chars@.subrange(from as int, i as int) =~= chars@.subrange(
            from as int,
            (i - 1) as int,
        ).push(chars@[i - 1]));
    }
}

/// A string that holds the characters `chars[from..to]`.
pub fn string_of(chars: &Vec<char>, from: usize, to: usize) -> (s: String)
    requires
        from <= to <= chars.len(),
    ensures
        s@ == chars@.subrange(from as int, to as int),
{
    let mut s = String::new();
    push_chars(&mut s, chars, from, to);
    assert(Seq::<char>::empty() + chars@.subrange(from as int, to as int) =~= chars@.subrange(
        from as int,
        to as int,
    ));
    s
}

/// Whether two character sequences are equal.
pub fn chars_equal(a: &Vec<char>, b: &Vec<char>) -> (r: bool)
    ensures
        r == (a@ == b@),
{
    if a.len() != b.len() {
        return false;
    }
    let mut i: usize = 0;
    while i < a.len()
        invariant
            a.len() == b.len(),
            i <= a.len(),
            forall|k: int| 0 <= k < i ==> a@[k] == b@[k],
        decreases a.len() - i,
    {
        if a[i] != b[i] {
            return false;
        }
        i = i + 1;
    }
    assert(a@ =~= b@);
    true
}

/// Whether two string slices hold the same characters.
pub fn str_equal(a: &str, b: &str) -> (r: bool)
    ensures
        r == (a@ == b@),
{
    let va = chars_of(a);
    let vb = chars_of(b);
    chars_equal(&va, &vb)
}

// ---------------------------------------------------------------------------
// Decimal numbers
// ---------------------------------------------------------------------------

/// The decimal representation of `n`, without leading zeros ("0" for zero).
pub open spec fn decimal(n: nat) -> Seq<char>
    decreases n,
{
    if n < 10 {
        seq![digit_char(n)]
    } else {
        decimal(n / 10).push(digit_char(n % 10))
    }
}

/// `s`, padded on the left with `0` up to `width` characters.
pub open spec fn zero_pad(s: Seq<char>, width: nat) -> Seq<char> {
    if s.len() >= width {
        s
    } else {
        Seq::new((width - s.len()) as nat, |i: int| '0') + s
    }
}

/// The number that a sequence of decimal digits denotes.
pub open spec fn digits_value(s: Seq<char>) -> nat
    decreases s.len(),
{
    if s.len() == 0 {
        0
    } else {
        digits_value(s.drop_last()) * 10 + digit_value(s.last())
    }
}

/// Whether every character of `s` is an ASCII digit.
pub open spec fn all_digits(s: Seq<char>) -> bool {
    forall|i: int| 0 <= i < s.len() ==> is_digit(#[trigger] s[i])
}

/// The decimal representation is made of digits and denotes `n`.
pub proof fn lemma_decimal(n: nat)
    ensures
        all_digits(decimal(n)),
        digits_value(decimal(n)) == n,
        decimal(n).len() >= 1,
    decreases n,
{
    let c = digit_char(n);
    assert(c as u32 == (n % 10) + 48);
    assert(digit_value(c) == n % 10);
    if n < 10 {
        assert(decimal(n).drop_last() =~= Seq::<char>::empty());
        assert(digits_value(Seq::<char>::empty()) == 0);
        assert(decimal(n).last() == c);
        assert(digits_value(decimal(n)) == digit_value(c));
    } else {
        lemma_decimal(n / 10);
        assert(decimal(n).drop_last() =~= decimal(n / 10));
        assert(decimal(n).last() == c);
        assert(digits_value(decimal(n)) == digits_value(decimal(n / 10)) * 10 + n % 10);
        assert(n == (n / 10) * 10 + n % 10);
    }
}

/// Leading zeros do not change the value of a digit sequence.
pub proof fn lemma_leading_zeros(k: nat, s: Seq<char>)
    ensures
        digits_value(Seq::new(k, |i: int| '0') + s) == digits_value(s),
    decreases s.len(), k,
{
    let z = Seq::new(k, |i: int| '0');
    if s.len() == 0 {
        assert(z + s =~= z);
        if k > 0 {
            lemma_leading_zeros((k - 1) as nat, s);
            assert(z.drop_last() =~= Seq::new((k - 1) as nat, |i: int| '0'));
            assert(Seq::new((k - 1) as nat, |i: int| '0') + s =~= Seq::new(
                (k - 1) as nat,
                |i: int| '0',
            ));
        }
    } else {
        lemma_leading_zeros(k, s.drop_last());
        assert((z + s).drop_last() =~= z + s.drop_last());
    }
}

/// Zero padding keeps the value of a digit sequence.
pub proof fn lemma_zero_pad_value(s: Seq<char>, width: nat)
    ensures
        digits_value(zero_pad(s, width)) == digits_value(s),
        all_digits(s) ==> all_digits(zero_pad(s, width)),
        zero_pad(s, width).len() == if s.len() >= width { s.len() } else { width },
{
    if s.len() < width {
        lemma_leading_zeros((width - s.len()) as nat, s);
    }
}

/// Appends the decimal representation of `n`.
pub fn push_decimal(s: &mut String, n: u64)
    ensures
        final(s)@ == old(s)@ + decimal(n as nat),
    decreases n,
{
    if n >= 10 {
        push_decimal(s, n / 10);
    }
    let d = (n % 10) as u8;
    let c = (d + 48) as char;
    assert(c == digit_char(n as nat));
    push_char(s, c);
    proof {
        if n >= 10 {
            assert(old(s)@ + decimal(n as nat) =~= old(s)@ + decimal((n / 10) as nat) + seq![c]);
        } else {
            assert(old(s)@ + decimal(n as nat) =~= old(s)@.push(c));
        }
    }
}

/// Appends the decimal representation of `n`, padded with zeros up to `width` characters.
pub fn push_decimal_padded(s: &mut String, n: u64, width: usize)
    ensures
        final(s)@ == old(s)@ + zero_pad(decimal(n as nat), width as nat),
{
    let mut digits = String::new();
    push_decimal(&mut digits, n);
    let dv = chars_of(digits.as_str());
    let ghost d = decimal(n as nat);
    assert(dv@ =~= d);
    let len = dv.len();
    let ghost start = s@;
    let mut pad: usize = 0;
    if len < width {
        pad = width - len;
    }
    let mut k: usize = 0;
    while k < pad
        invariant
            k <= pad,
            s@ == start + Seq::new(k as nat, |i: int| '0'),
        decreases pad - k,
    {
        push_char(s, '0');
        k = k + 1;
        assert(Seq::new(k as nat, |i: int| '0') =~= Seq::new((k - 1) as nat, |i: int| '0').push(
            '0',
        ));
    }
    push_chars(s, &dv, 0, len);
    assert(dv@.subrange(0, len as int) =~= d);
    proof {
        if len < width {
            assert(zero_pad(d, width as nat) == Seq::new(pad as nat, |i: int| '0') + d);
        } else {
            assert(Seq::new(0nat, |i: int| '0') =~= Seq::<char>::empty());
            assert(zero_pad(d, width as nat) == d);
        }
        assert(s@ =~= start + zero_pad(d, width as nat));
    }
}


// ---------------------------------------------------------------------------
// Searching
// ---------------------------------------------------------------------------

/// Whether `t` occurs in `s` as a contiguous run.
pub open spec fn has_substring(s: Seq<char>, t: Seq<char>) -> bool {
    exists|i: int| 0 <= i <= s.len() - t.len() && #[trigger] s.subrange(i, i + t.len()) == t
}

/// Whether `s` begins with `t`.
pub open spec fn has_prefix(s: Seq<char>, t: Seq<char>) -> bool {
    t.len() <= s.len() && s.take(t.len() as int) == t
}

/// Whether `needle` occurs in `hay` as a contiguous run.
pub fn chars_contain(hay: &Vec<char>, needle: &Vec<char>) -> (r: bool)
    ensures
        r == has_substring(hay@, needle@),
{
    if needle.len() > hay.len() {
        return false;
    }
    let n = needle.len();
    let last = hay.len() - n;
    let mut i: usize = 0;
    while i <= last
        invariant
            n == needle.len(),
            last == hay.len() - n,
            i <= last + 1,
            forall|k: int| 0 <= k < i ==> #[trigger] hay@.subrange(k, k + n) != needle@,
        decreases last + 1 - i,
    {
        let mut j: usize = 0;
        while j < n && hay[i + j] == needle[j]
            invariant
                n == needle.len(),
                i <= last,
                last == hay.len() - n,
                j <= n,
                forall|m: int| 0 <= m < j ==> hay@[i + m] == needle@[m],
            decreases n - j,
        {
            j = j + 1;
        }
        if j == n {
            assert(hay@.subrange(i as int, i + n) =~= needle@);
            return true;
        }
        assert(hay@.subrange(i as int, i + n)[j as int] != needle@[j as int]);
        i = i + 1;
    }
    false
}

/// Whether `hay` begins with `prefix`.
pub fn chars_start_with(hay: &Vec<char>, prefix: &Vec<char>) -> (r: bool)
    ensures
        r == has_prefix(hay@, prefix@),
{
    if prefix.len() > hay.len() {
        return false;
    }
    let mut j: usize = 0;
    while j < prefix.len()
        invariant
            prefix.len() <= hay.len(),
            j <= prefix.len(),
            forall|m: int| 0 <= m < j ==> hay@[m] == prefix@[m],
        decreases prefix.len() - j,
    {
        if hay[j] != prefix[j] {
            assert(hay@.take(prefix.len() as int)[j as int] != prefix@[j as int]);
            return false;
        }
        j = j + 1;
    }
    assert(hay@.take(prefix.len() as int) =~= prefix@);
    true
}

/// Whether the character `c` occurs in `hay`.
pub fn chars_contain_char(hay: &Vec<char>, c: char) -> (r: bool)
    ensures
        r == hay@.contains(c),
{
    let mut i: usize = 0;
    while i < hay.len()
        invariant
            i <= hay.len(),
            forall|m: int| 0 <= m < i ==> hay@[m] != c,
        decreases hay.len() - i,
    {
        if hay[i] == c {
            assert(hay@[i as int] == c);
            return true;
        }
        i = i + 1;
    }
    false
}


/// Whether `s` ends with `t`.
pub open spec fn has_suffix(s: Seq<char>, t: Seq<char>) -> bool {
    t.len() <= s.len() && s.skip(s.len() - t.len()) == t
}

/// Whether `hay` ends with `suffix`.
pub fn chars_end_with(hay: &Vec<char>, suffix: &Vec<char>) -> (r: bool)
    ensures
        r == has_suffix(hay@, suffix@),
{
    if suffix.len() > hay.len() {
        return false;
    }
    let off = hay.len() - suffix.len();
    let mut j: usize = 0;
    while j < suffix.len()
        invariant
            suffix.len() <= hay.len(),
            off == hay.len() - suffix.len(),
            j <= suffix.len(),
            forall|m: int| 0 <= m < j ==> hay@[off + m] == suffix@[m],
        decreases suffix.len() - j,
    {
        if hay[off + j] != suffix[j] {
            assert(hay@.skip(off as int)[j as int] != suffix@[j as int]);
            return false;
        }
        j = j + 1;
    }
    assert(hay@.skip(off as int) =~= suffix@);
    true
}

/// Appends a copy of `s` to a list of strings.
pub fn push_string(list: &mut Vec<String>, s: &str)
    ensures
        string_views(final(list)@) == string_views(old(list)@).push(s@),
{
    list.push(String::from_str(s));
    assert(string_views(list@) =~= string_views(old(list)@).push(s@));
}

// ---------------------------------------------------------------------------
// Words
// ---------------------------------------------------------------------------

/// The length of the run of non-white-space characters at the front of `s`.
pub open spec fn word_len(s: Seq<char>) -> nat
    decreases s.len(),
{
    if s.len() == 0 || is_whitespace(s[0]) {
        0
    } else {
        1 + word_len(s.drop_first())
    }
}

/// A word never runs past the end of the text.
pub proof fn lemma_word_len_bound(s: Seq<char>)
    ensures
        word_len(s) <= s.len(),
        s.len() > 0 && !is_whitespace(s[0]) ==> word_len(s) >= 1,
    decreases s.len(),
{
    if s.len() > 0 && !is_whitespace(s[0]) {
        lemma_word_len_bound(s.drop_first());
    }
}

/// The words of `s`: its maximal runs of non-white-space characters, in order.
pub open spec fn split_whitespace(s: Seq<char>) -> Seq<Seq<char>>
    decreases s.len(),
{
    if s.len() == 0 {
        seq![]
    } else if is_whitespace(s[0]) {
        split_whitespace(s.drop_first())
    } else {
        proof {
            lemma_word_len_bound(s);
        }
        seq![s.take(word_len(s) as int)] + split_whitespace(s.skip(word_len(s) as int))
    }
}

/// The views of a list of strings.
pub open spec fn string_views(v: Seq<String>) -> Seq<Seq<char>> {
    v.map_values(|w: String| w@)
}

/// A word seen from inside: the length of the word at `i` is what was scanned so far
/// plus what remains from `j`.
proof fn lemma_word_len_step(s: Seq<char>, i: int, j: int)
    requires
        0 <= i <= j < s.len(),
        !is_whitespace(s[j]),
        word_len(s.skip(i)) == (j - i) + word_len(s.skip(j)),
    ensures
        word_len(s.skip(i)) == (j + 1 - i) + word_len(s.skip(j + 1)),
{
    assert(s.skip(j).drop_first() =~= s.skip(j + 1));
}

/// Splits `s` at white space into its words.
pub fn split_words(s: &str) -> (words: Vec<String>)
    ensures
        string_views(words@) == split_whitespace(s@),
{
    let v = chars_of(s);
    let n = v.len();
    let mut words: Vec<String> = Vec::new();
    let mut i: usize = 0;
    assert(v@.skip(0) =~= v@);
    while i < n
        invariant
            n == v.len(),
            v@ == s@,
            i <= n,
            string_views(words@) + split_whitespace(v@.skip(i as int)) == split_whitespace(v@),
        decreases n - i,
    {
        let ghost rest = v@.skip(i as int);
        if is_whitespace_char(v[i]) {
            assert(rest.drop_first() =~= v@.skip(i + 1));
            i = i + 1;
        } else {
            let mut j = i;
            while j < n && !is_whitespace_char(v[j])
                invariant
                    n == v.len(),
                    i <= j <= n,
                    word_len(v@.skip(i as int)) == (j - i) + word_len(v@.skip(j as int)),
                decreases n - j,
            {
                proof {
                    lemma_word_len_step(v@, i as int, j as int);
                }
                j = j + 1;
            }
            assert(word_len(v@.skip(j as int)) == 0);
            let w = string_of(&v, i, j);
            let ghost before = string_views(words@);
            words.push(w);
            assert(rest.take((j - i) as int) =~= v@.subrange(i as int, j as int));
            assert(rest.skip((j - i) as int) =~= v@.skip(j as int));
            assert(string_views(words@) =~= before.push(v@.subrange(i as int, j as int)));
            assert(split_whitespace(rest) == seq![v@.subrange(i as int, j as int)]
                + split_whitespace(v@.skip(j as int)));
            assert(string_views(words@) + split_whitespace(v@.skip(j as int)) =~= before
                + split_whitespace(rest));
            i = j;
        }
    }
    assert(v@.skip(n as int) =~= Seq::<char>::empty());
    assert(string_views(words@) + split_whitespace(v@.skip(n as int)) =~= string_views(words@));
    words
}


// ---------------------------------------------------------------------------
// Splitting at a separator
// ---------------------------------------------------------------------------

/// The pieces of `s` between occurrences of `sep` (`str::split` with a character):
/// one more piece than there are separators, empty pieces included.
pub open spec fn split_char(s: Seq<char>, sep: char) -> Seq<Seq<char>>
    decreases s.len(),
{
    if s.len() == 0 {
        seq![Seq::<char>::empty()]
    } else {
        let rest = split_char(s.drop_last(), sep);
        if s.last() == sep {
            rest.push(Seq::<char>::empty())
        } else {
            rest.update(rest.len() - 1, rest.last().push(s.last()))
        }
    }
}

/// There is always at least one piece.
pub proof fn lemma_split_char_nonempty(s: Seq<char>, sep: char)
    ensures
        split_char(s, sep).len() >= 1,
    decreases s.len(),
{
    if s.len() > 0 {
        lemma_split_char_nonempty(s.drop_last(), sep);
    }
}

/// The views of a list of character vectors.
pub open spec fn char_vec_views(v: Seq<Vec<char>>) -> Seq<Seq<char>> {
    v.map_values(|w: Vec<char>| w@)
}

/// Splits `s` at every occurrence of `sep`.
pub fn split_at_char(s: &Vec<char>, sep: char) -> (parts: Vec<Vec<char>>)
    ensures
        char_vec_views(parts@) == split_char(s@, sep),
{
    let mut done: Vec<Vec<char>> = Vec::new();
    let mut cur: Vec<char> = Vec::new();
    let mut i: usize = 0;
    assert(s@.take(0) =~= Seq::<char>::empty());
    assert(char_vec_views(done@).push(cur@) =~= split_char(s@.take(0), sep));
    while i < s.len()
        invariant
            i <= s.len(),
            char_vec_views(done@).push(cur@) == split_char(s@.take(i as int), sep),
        decreases s.len() - i,
    {
        let c = s[i];
        let ghost prev = s@.take(i as int);
        assert(s@.take(i + 1).drop_last() =~= prev);
        assert(s@.take(i + 1).last() == c);
        proof { lemma_split_char_nonempty(prev, sep); }
        if c == sep {
            let finished = cur;
            done.push(finished);
            cur = Vec::new();
            assert(char_vec_views(done@).push(cur@) =~= split_char(prev, sep).push(
                Seq::<char>::empty(),
            ));
        } else {
            let ghost old_cur = cur@;
            cur.push(c);
            assert(char_vec_views(done@).push(cur@) =~= split_char(prev, sep).update(
                split_char(prev, sep).len() - 1,
                old_cur.push(c),
            ));
        }
        i = i + 1;
    }
    assert(s@.take(s.len() as int) =~= s@);
    done.push(cur);
    done
}

// ---------------------------------------------------------------------------
// Trimming
// ---------------------------------------------------------------------------

/// The number of white-space characters at the front of `s`.
pub open spec fn leading_whitespace(s: Seq<char>) -> nat
    decreases s.len(),
{
    if s.len() == 0 || !is_whitespace(s[0]) {
        0
    } else {
        1 + leading_whitespace(s.drop_first())
    }
}

/// The number of white-space characters at the end of `s`.
pub open spec fn trailing_whitespace(s: Seq<char>) -> nat
    decreases s.len(),
{
    if s.len() == 0 || !is_whitespace(s.last()) {
        0
    } else {
        1 + trailing_whitespace(s.drop_last())
    }
}

/// Counts of white space never exceed the length.
pub proof fn lemma_whitespace_counts(s: Seq<char>)
    ensures
        leading_whitespace(s) <= s.len(),
        trailing_whitespace(s) <= s.len(),
    decreases s.len(),
{
    if s.len() > 0 {
        lemma_whitespace_counts(s.drop_first());
        lemma_whitespace_counts(s.drop_last());
    }
}

/// `s` without white space at either end (`str::trim`).
pub open spec fn trim(s: Seq<char>) -> Seq<char> {
    let rest = s.skip(leading_whitespace(s) as int);
    rest.take(rest.len() - trailing_whitespace(rest))
}

/// `s` without white space at either end.
pub fn trim_chars(s: &Vec<char>) -> (t: Vec<char>)
    ensures
        t@ == trim(s@),
{
    let n = s.len();
    let mut a: usize = 0;
    proof {
        lemma_whitespace_counts(s@);
    }
    assert(s@.skip(0) =~= s@);
    while a < n && is_whitespace_char(s[a])
        invariant
            n == s.len(),
            a <= n,
            leading_whitespace(s@) == a + leading_whitespace(s@.skip(a as int)),
        decreases n - a,
    {
        assert(s@.skip(a as int).drop_first() =~= s@.skip(a + 1));
        a = a + 1;
    }
    assert(leading_whitespace(s@.skip(a as int)) == 0);
    let ghost rest = s@.skip(a as int);
    let mut b: usize = n;
    proof {
        lemma_whitespace_counts(rest);
    }
    assert(rest.take(n - a) =~= rest);
    while b > a && is_whitespace_char(s[b - 1])
        invariant
            n == s.len(),
            a <= b <= n,
            rest == s@.skip(a as int),
            trailing_whitespace(rest) == (n - b) + trailing_whitespace(rest.take(b - a)),
        decreases b - a,
    {
        assert(rest.take(b - a).drop_last() =~= rest.take(b - 1 - a));
        assert(rest.take(b - a).last() == s@[b - 1]);
        b = b - 1;
    }
    assert(trailing_whitespace(rest.take(b - a)) == 0) by {
        if b > a {
            assert(rest.take(b - a).last() == s@[b - 1]);
        }
    }
    let mut t: Vec<char> = Vec::new();
    let mut k = a;
    while k < b
        invariant
            a <= k <= b <= n,
            n == s.len(),
            t@ == s@.subrange(a as int, k as int),
        decreases b - k,
    {
        t.push(s[k]);
        k = k + 1;
        assert(s@.subrange(a as int, k as int) =~= s@.subrange(a as int, k - 1).push(s@[k - 1]));
    }
    assert(rest.take(rest.len() - trailing_whitespace(rest)) =~= s@.subrange(a as int, b as int));
    t
}

// ---------------------------------------------------------------------------
// Reading unsigned integers
// ---------------------------------------------------------------------------

/// Why text is not an unsigned 32-bit number (the kinds of `core::num::ParseIntError`).
#[derive(Debug, Clone, Copy, PartialEq, Eq, Structural)]
pub enum IntErrorKind {
    /// The text is empty.
    Empty,
    /// A character is not a decimal digit.
    InvalidDigit,
    /// The number does not fit in 32 bits.
    PosOverflow,
}

impl IntErrorKind {
    /// The message of the error, as `core::num::ParseIntError` words it.
    pub fn message(&self) -> (m: &'static str)
        ensures
            m@ == match *self {
                IntErrorKind::Empty => "cannot parse integer from empty string"@,
                IntErrorKind::InvalidDigit => "invalid digit found in string"@,
                IntErrorKind::PosOverflow => "number too large to fit in target type"@,
            },
    {
        match self {
            IntErrorKind::Empty => "cannot parse integer from empty string",
            IntErrorKind::InvalidDigit => "invalid digit found in string",
            IntErrorKind::PosOverflow => "number too large to fit in target type",
        }
    }
}

/// Reads decimal digits from left to right; the first character that is no digit,
/// or the first digit that takes the value past `u32::MAX`, decides the error.
pub open spec fn digits_u32(s: Seq<char>) -> Result<nat, IntErrorKind>
    decreases s.len(),
{
    if s.len() == 0 {
        Ok(0)
    } else {
        match digits_u32(s.drop_last()) {
            Err(e) => Err(e),
            Ok(v) => if !is_digit(s.last()) {
                Err(IntErrorKind::InvalidDigit)
            } else if v * 10 + digit_value(s.last()) > u32::MAX {
                Err(IntErrorKind::PosOverflow)
            } else {
                Ok(v * 10 + digit_value(s.last()))
            },
        }
    }
}

/// What `str::parse::<u32>` gives for `s`: an optional `+`, then at least one digit.
pub open spec fn parse_u32_spec(s: Seq<char>) -> Result<u32, IntErrorKind> {
    if s.len() == 0 {
        Err(IntErrorKind::Empty)
    } else {
        let digits = if s[0] == '+' { s.drop_first() } else { s };
        if digits.len() == 0 {
            Err(IntErrorKind::InvalidDigit)
        } else {
            match digits_u32(digits) {
                Ok(v) => Ok(v as u32),
                Err(e) => Err(e),
            }
        }
    }
}

/// A successful read stays within 32 bits.
proof fn lemma_digits_u32_bound(s: Seq<char>)
    ensures
        digits_u32(s) matches Ok(v) ==> v <= u32::MAX,
    decreases s.len(),
{
    if s.len() > 0 {
        lemma_digits_u32_bound(s.drop_last());
    }
}

/// Reads `s` as an unsigned 32-bit decimal number.
pub fn parse_u32(s: &Vec<char>) -> (r: Result<u32, IntErrorKind>)
    ensures
        r == parse_u32_spec(s@),
{
    if s.len() == 0 {
        return Err(IntErrorKind::Empty);
    }
    let start: usize = if s[0] == '+' { 1 } else { 0 };
    let ghost digits = if s@[0] == '+' { s@.drop_first() } else { s@ };
    assert(digits =~= s@.skip(start as int));
    if start == s.len() {
        return Err(IntErrorKind::InvalidDigit);
    }
    let mut value: u32 = 0;
    let mut i = start;
    assert(s@.subrange(start as int, start as int) =~= Seq::<char>::empty());
    while i < s.len()
        invariant
            start <= i <= s.len(),
            s.len() > 0,
            digits == s@.skip(start as int),
            digits == (if s@[0] == '+' { s@.drop_first() } else { s@ }),
            digits_u32(s@.subrange(start as int, i as int)) == Ok::<nat, IntErrorKind>(
                value as nat,
            ),
        decreases s.len() - i,
    {
        let c = s[i];
        let ghost prefix = s@.subrange(start as int, i + 1);
        assert(prefix.drop_last() =~= s@.subrange(start as int, i as int));
        assert(prefix.last() == c);
        assert(digits.take(i + 1 - start) =~= prefix);
        let u = c as u32;
        if !(48 <= u && u <= 57) {
            assert(!is_digit(c));
            assert(digits_u32(prefix) == Err::<nat, IntErrorKind>(IntErrorKind::InvalidDigit));
            proof {
                lemma_digits_prefix_error(digits, (i - start) as int, IntErrorKind::InvalidDigit);
            }
            assert(digits.len() > 0);
            assert(digits_u32(digits) == Err::<nat, IntErrorKind>(IntErrorKind::InvalidDigit));
            return Err(IntErrorKind::InvalidDigit);
        }
        let d = u - 48;
        assert(is_digit(c) && digit_value(c) == d);
        if value > 429496729 || (value == 429496729 && d > 5) {
            assert(value * 10 + d > u32::MAX);
            assert(digits_u32(prefix) == Err::<nat, IntErrorKind>(IntErrorKind::PosOverflow));
            proof {
                lemma_digits_prefix_error(digits, (i - start) as int, IntErrorKind::PosOverflow);
            }
            return Err(IntErrorKind::PosOverflow);
        }
        assert(value * 10 + d <= u32::MAX);
        value = value * 10 + d;
        i = i + 1;
    }
    assert(s@.subrange(start as int, s.len() as int) =~= digits);
    Ok(value)
}

/// Once a prefix of the digits fails, the whole text fails the same way.
proof fn lemma_digits_prefix_error(s: Seq<char>, k: int, e: IntErrorKind)
    requires
        0 <= k < s.len(),
        digits_u32(s.take(k + 1)) == Err::<nat, IntErrorKind>(e),
    ensures
        digits_u32(s) == Err::<nat, IntErrorKind>(e),
    decreases s.len() - k,
{
    if k + 1 < s.len() {
        assert(s.take(k + 2).drop_last() =~= s.take(k + 1));
        lemma_digits_prefix_error(s, k + 1, e);
    } else {
        assert(s.take(k + 1) =~= s);
    }
}


/// Text without the separator is a single piece.
pub proof fn lemma_split_char_none(s: Seq<char>, sep: char)
    requires
        !s.contains(sep),
    ensures
        split_char(s, sep) == seq![s],
    decreases s.len(),
{
    if s.len() > 0 {
        assert(!s.drop_last().contains(sep)) by {
            if s.drop_last().contains(sep) {
                let k = choose|k: int| 0 <= k < s.drop_last().len() && s.drop_last()[k] == sep;
                assert(s[k] == sep);
            }
        }
        lemma_split_char_none(s.drop_last(), sep);
        assert(s.last() != sep) by {
            assert(s[s.len() - 1] == s.last());
        }
        let rest = split_char(s.drop_last(), sep);
        assert(rest.len() == 1 && rest.last() == s.drop_last());
        assert(s.drop_last().push(s.last()) =~= s);
        assert(split_char(s, sep) == rest.update(0, s));
        assert(rest.update(0, s) =~= seq![s]);
    } else {
        assert(s =~= Seq::<char>::empty());
    }
}

/// After a separator, a run without separators is the last piece.
pub proof fn lemma_split_char_last(a: Seq<char>, sep: char, b: Seq<char>)
    requires
        !b.contains(sep),
    ensures
        split_char(a + seq![sep] + b, sep).len() >= 2,
        split_char(a + seq![sep] + b, sep).last() == b,
        split_char(a + seq![sep] + b, sep).len() == split_char(a, sep).len() + 1,
    decreases b.len(),
{
    let s = a + seq![sep] + b;
    lemma_split_char_nonempty(a, sep);
    if b.len() == 0 {
        assert(s =~= a.push(sep));
        assert(s.drop_last() =~= a);
    } else {
        assert(!b.drop_last().contains(sep)) by {
            if b.drop_last().contains(sep) {
                let k = choose|k: int| 0 <= k < b.drop_last().len() && b.drop_last()[k] == sep;
                assert(b[k] == sep);
            }
        }
        lemma_split_char_last(a, sep, b.drop_last());
        assert(s.drop_last() =~= a + seq![sep] + b.drop_last());
        assert(s.last() == b.last());
        assert(b.last() != sep) by {
            assert(b[b.len() - 1] == b.last());
        }
        assert(b.drop_last().push(b.last()) =~= b);
    }
}

/// Text that starts with something other than the separator has a non-empty first piece.
pub proof fn lemma_split_char_first(s: Seq<char>, sep: char)
    requires
        s.len() > 0,
        s[0] != sep,
    ensures
        split_char(s, sep)[0].len() > 0,
    decreases s.len(),
{
    lemma_split_char_nonempty(s, sep);
    if s.len() == 1 {
        assert(s.drop_last() =~= Seq::<char>::empty());
        assert(s.last() == s[0]);
    } else {
        lemma_split_char_first(s.drop_last(), sep);
        lemma_split_char_nonempty(s.drop_last(), sep);
    }
}

/// What a number is written as, reading gives back: the decimal text of any 32-bit
/// number reads as that number.
pub proof fn lemma_parse_decimal(n: u32)
    ensures
        parse_u32_spec(decimal(n as nat)) == Ok::<u32, IntErrorKind>(n),
{
    lemma_digits_of_decimal(n as nat);
    lemma_decimal(n as nat);
    let d = decimal(n as nat);
    assert(is_digit(d[0]));
    assert(d[0] != '+');
}

/// Reading the decimal text of a number in range gives the number.
proof fn lemma_digits_of_decimal(n: nat)
    requires
        n <= u32::MAX,
    ensures
        digits_u32(decimal(n)) == Ok::<nat, IntErrorKind>(n),
    decreases n,
{
    let c = digit_char(n);
    assert(c as u32 == (n % 10) + 48);
    assert(is_digit(c) && digit_value(c) == n % 10);
    if n < 10 {
        assert(decimal(n).drop_last() =~= Seq::<char>::empty());
        assert(decimal(n).last() == c);
        assert(digits_u32(Seq::<char>::empty()) == Ok::<nat, IntErrorKind>(0));
    } else {
        lemma_digits_of_decimal(n / 10);
        assert(decimal(n).drop_last() =~= decimal(n / 10));
        assert(decimal(n).last() == c);
        assert(n == (n / 10) * 10 + n % 10);
    }
}


/// Every character of `piece` occurs in `s` and differs from `sep`.
pub open spec fn piece_of(piece: Seq<char>, s: Seq<char>, sep: char) -> bool {
    forall|m: int| 0 <= m < piece.len() ==> #[trigger] piece[m] != sep && s.contains(piece[m])
}

/// The pieces of a split hold no separator, only characters of the text.
pub proof fn lemma_split_char_pieces(s: Seq<char>, sep: char)
    ensures
        forall|k: int|
            0 <= k < split_char(s, sep).len() ==> piece_of(#[trigger] split_char(s, sep)[k], s, sep),
    decreases s.len(),
{
    if s.len() > 0 {
        let prev = s.drop_last();
        let rest = split_char(prev, sep);
        lemma_split_char_pieces(prev, sep);
        lemma_split_char_nonempty(prev, sep);
        let all = split_char(s, sep);
        assert forall|k: int| 0 <= k < all.len() implies piece_of(#[trigger] all[k], s, sep) by {
            if s.last() == sep {
                if k < rest.len() {
                    assert(all[k] == rest[k]);
                    assert forall|m: int| 0 <= m < all[k].len() implies #[trigger] all[k][m] != sep
                        && s.contains(all[k][m]) by {
                        assert(piece_of(rest[k], prev, sep));
                        let j = choose|j: int| 0 <= j < prev.len() && prev[j] == rest[k][m];
                        assert(s[j] == prev[j]);
                    }
                }
            } else {
                let last = rest.len() - 1;
                assert(piece_of(rest[k], prev, sep));
                assert forall|m: int| 0 <= m < all[k].len() implies #[trigger] all[k][m] != sep
                    && s.contains(all[k][m]) by {
                    if k == last && m == all[k].len() - 1 {
                        assert(all[k][m] == s.last());
                        assert(s[s.len() - 1] == s.last());
                    } else {
                        assert(all[k][m] == rest[k][m]);
                        let j = choose|j: int| 0 <= j < prev.len() && prev[j] == rest[k][m];
                        assert(s[j] == prev[j]);
                    }
                }
            }
        }
    }
}


/// A character missing from both halves is missing from the whole.
pub proof fn lemma_concat_lacks(a: Seq<char>, b: Seq<char>, c: char)
    requires
        !a.contains(c),
        !b.contains(c),
    ensures
        !(a + b).contains(c),
{
    if (a + b).contains(c) {
        let k = choose|k: int| 0 <= k < (a + b).len() && (a + b)[k] == c;
        if k < a.len() {
            assert(a[k] == c);
        } else {
            assert(b[k - a.len()] == c);
        }
    }
}


/// The word at the front of `a` is unchanged by what follows `a`, as long as it ends
/// inside `a` or what follows starts with white space.
pub proof fn lemma_word_len_append(a: Seq<char>, t: Seq<char>)
    requires
        word_len(a) < a.len() || (t.len() > 0 && is_whitespace(t[0])),
    ensures
        word_len(a + t) == word_len(a),
    decreases a.len(),
{
    lemma_word_len_bound(a);
    if a.len() == 0 {
        assert(a + t =~= t);
    } else if is_whitespace(a[0]) {
        assert((a + t)[0] == a[0]);
    } else {
        assert((a + t)[0] == a[0]);
        assert((a + t).drop_first() =~= a.drop_first() + t);
        lemma_word_len_append(a.drop_first(), t);
    }
}

/// Splitting text joined at a white-space character gives the words of the first part
/// followed by the words of the second.
pub proof fn lemma_split_whitespace_join(a: Seq<char>, c: char, b: Seq<char>)
    requires
        is_whitespace(c),
    ensures
        split_whitespace(a + seq![c] + b) == split_whitespace(a) + split_whitespace(b),
    decreases a.len(),
{
    let s = a + seq![c] + b;
    if a.len() == 0 {
        assert(s[0] == c);
        assert(s.drop_first() =~= b);
        assert(split_whitespace(a) =~= Seq::<Seq<char>>::empty());
        assert(split_whitespace(b) =~= Seq::<Seq<char>>::empty() + split_whitespace(b));
    } else if is_whitespace(a[0]) {
        assert(s[0] == a[0]);
        assert(s.drop_first() =~= a.drop_first() + seq![c] + b);
        lemma_split_whitespace_join(a.drop_first(), c, b);
    } else {
        assert(s[0] == a[0]);
        lemma_word_len_bound(a);
        let k = word_len(a) as int;
        assert(a + (seq![c] + b) =~= s);
        lemma_word_len_append(a, seq![c] + b);
        assert(word_len(s) == k);
        assert(s.take(k) =~= a.take(k));
        assert(s.skip(k) =~= a.skip(k) + seq![c] + b);
        lemma_split_whitespace_join(a.skip(k), c, b);
        assert(split_whitespace(s) == seq![a.take(k)] + split_whitespace(s.skip(k)));
        assert(split_whitespace(a) == seq![a.take(k)] + split_whitespace(a.skip(k)));
        assert(split_whitespace(s) =~= split_whitespace(a) + split_whitespace(b));
    }
}

} // verus!

//! Small verified text helpers shared by the providers and the cache.
use vstd::prelude::*;

verus! {

/// Character-wise equality of two string slices.
pub fn str_eq(a: &str, b: &str) -> (r: bool)
    ensures
        r == (a@ == b@),
{
    let na = a.unicode_len();
    let nb = b.unicode_len();
    if na != nb {
        proof {
            assert(a@ != b@) by {
                assert(a@.len() != b@.len());
            }
        }
        return false;
    }
    let mut i: usize = 0;
    while i < na
        invariant
            na == a@.len(),
            na == b@.len(),
            i <= na,
            forall|k: int| 0 <= k < i ==> a@[k] == b@[k],
        decreases na - i,
    {
        if a.get_char(i) != b.get_char(i) {
            return false;
        }
        i += 1;
    }
    proof {
        assert(a@ =~= b@);
    }
    true
}

/// The decimal digits of `n`, most significant first.
pub open spec fn spec_decimal(n: int) -> Seq<char>
    decreases n,
{
    if n < 10 {
        seq![digit_char(n)]
    } else {
        spec_decimal(n / 10).push(digit_char(n % 10))
    }
}

/// The character for one decimal digit.
pub open spec fn digit_char(d: int) -> char {
    if d == 0 {
        '0'
    } else if d == 1 {
        '1'
    } else if d == 2 {
        '2'
    } else if d == 3 {
        '3'
    } else if d == 4 {
        '4'
    } else if d == 5 {
        '5'
    } else if d == 6 {
        '6'
    } else if d == 7 {
        '7'
    } else if d == 8 {
        '8'
    } else {
        '9'
    }
}

/// One decimal digit, as a string slice.
fn digit_str(d: u64) -> (r: &'static str)
    requires
        d < 10,
    ensures
        r@ == seq![digit_char(d as int)],
{
    proof {
        reveal_strlit("0");
        reveal_strlit("1");
        reveal_strlit("2");
        reveal_strlit("3");
        reveal_strlit("4");
        reveal_strlit("5");
        reveal_strlit("6");
        reveal_strlit("7");
        reveal_strlit("8");
        reveal_strlit("9");
    }
    if d == 0 {
        "0"
    } else if d == 1 {
        "1"
    } else if d == 2 {
        "2"
    } else if d == 3 {
        "3"
    } else if d == 4 {
        "4"
    } else if d == 5 {
        "5"
    } else if d == 6 {
        "6"
    } else if d == 7 {
        "7"
    } else if d == 8 {
        "8"
    } else {
        "9"
    }
}

/// Render `n` in decimal.
pub fn u64_to_dec(n: u64) -> (s: String)
    ensures
        s@ == spec_decimal(n as int),
    decreases n,
{
    if n < 10 {
        String::from_str(digit_str(n))
    } else {
        let mut s = u64_to_dec(n / 10);
        s.append(digit_str(n % 10));
        s
    }
}

/// Concatenation of two string slices.
pub fn concat_str(a: &str, b: &str) -> (r: String)
    ensures
        r@ == a@ + b@,
{
    let mut s = String::from_str(a);
    s.append(b);
    s
}

/// The views of a sequence of strings.
pub open spec fn str_views(s: Seq<String>) -> Seq<Seq<char>> {
    s.map_values(|t: String| t@)
}

/// The index of the first space in `s`, or its length if there is none.
pub open spec fn first_space(s: Seq<char>) -> int
    decreases s.len(),
{
    if s.len() == 0 {
        0
    } else if s.first() == ' ' {
        0
    } else {
        1 + first_space(s.drop_first())
    }
}

/// Bounds of `first_space`, and what it points at.
pub proof fn lemma_first_space(s: Seq<char>)
    ensures
        0 <= first_space(s) <= s.len(),
        forall|k: int| 0 <= k < first_space(s) ==> s[k] != ' ',
        first_space(s) < s.len() ==> s[first_space(s)] == ' ',
    decreases s.len(),
{
    if s.len() > 0 && s.first() != ' ' {
        lemma_first_space(s.drop_first());
        assert forall|k: int| 0 <= k < first_space(s) implies s[k] != ' ' by {
            if k > 0 {
                assert(s.drop_first()[k - 1] != ' ');
            }
        }
    }
}

/// Split `q` at its first space: the part before it and the part after it.
/// `None` when `q` holds no space.
pub fn split_once_space(q: &str) -> (r: Option<(String, String)>)
    ensures
        match r {
            Some(pair) => first_space(q@) < q@.len() && pair.0@ == q@.take(first_space(q@))
                && pair.1@ == q@.skip(first_space(q@) + 1),
            None => first_space(q@) == q@.len(),
        },
{
    proof {
        lemma_first_space(q@);
    }
    let n = q.unicode_len();
    let mut i: usize = 0;
    while i < n
        invariant
            n == q@.len(),
            i <= n,
            forall|k: int| 0 <= k < i ==> q@[k] != ' ',
        decreases n - i,
    {
        if q.get_char(i) == ' ' {
            proof {
                lemma_first_space_at(q@, i as int);
            }
            let left = q.substring_char(0, i);
            let right = q.substring_char(i + 1, n);
            return Some((String::from_str(left), String::from_str(right)));
        }
        i += 1;
    }
    proof {
        if first_space(q@) < q@.len() {
            assert(q@[first_space(q@)] == ' ');
        }
    }
    None
}

/// If nothing before `i` is a space and `s[i]` is one, `i` is the first
/// space.
proof fn lemma_first_space_at(s: Seq<char>, i: int)
    requires
        0 <= i < s.len(),
        s[i] == ' ',
        forall|k: int| 0 <= k < i ==> s[k] != ' ',
    ensures
        first_space(s) == i,
{
    lemma_first_space(s);
    if first_space(s) < i {
        assert(s[first_space(s)] != ' ');
        assert(first_space(s) < s.len());
    }
    if first_space(s) > i {
        assert(s[i] != ' ');
    }
}

/// `t` with every occurrence of `%s`, read from index `i` on, replaced by
/// `v`.
pub open spec fn subst_from(t: Seq<char>, v: Seq<char>, i: int) -> Seq<char>
    decreases t.len() - i,
{
    if i < 0 || i >= t.len() {
        Seq::empty()
    } else if i + 1 < t.len() && t[i] == '%' && t[i + 1] == 's' {
        v + subst_from(t, v, i + 2)
    } else {
        seq![t[i]] + subst_from(t, v, i + 1)
    }
}

/// `t` with every occurrence of the placeholder `%s` replaced by `v`.
pub open spec fn spec_subst(t: Seq<char>, v: Seq<char>) -> Seq<char> {
    subst_from(t, v, 0)
}

/// Replace every occurrence of the placeholder `%s` in `template` by
/// `value`.
pub fn substitute(template: &str, value: &str) -> (r: String)
    ensures
        r@ == spec_subst(template@, value@),
{
    let n = template.unicode_len();
    let mut out = String::new();
    let mut i: usize = 0;
    while i < n
        invariant
            n == template@.len(),
            i <= n,
            out@ + subst_from(template@, value@, i as int) == spec_subst(template@, value@),
        decreases n - i,
    {
        let c = template.get_char(i);
        if c == '%' && i + 1 < n && template.get_char(i + 1) == 's' {
            out.append(value);
            i += 2;
        } else {
            let piece = template.substring_char(i, i + 1);
            proof {
                assert(piece@ =~= seq![template@[i as int]]);
            }
            out.append(piece);
            i += 1;
        }
        proof {
            assert(out@ + subst_from(template@, value@, i as int) =~= spec_subst(
                template@,
                value@,
            ));
        }
    }
    proof {
        assert(subst_from(template@, value@, n as int) =~= Seq::<char>::empty());
        assert(out@ =~= spec_subst(template@, value@));
    }
    out
}

/// Whitespace, for tokenizing queries.
pub open spec fn is_space_char(c: char) -> bool {
    c == ' ' || c == '\t' || c == '\n' || c == '\r'
}

/// Whether the character counts as whitespace.
pub fn space_char(c: char) -> (r: bool)
    ensures
        r == is_space_char(c),
{
    c == ' ' || c == '\t' || c == '\n' || c == '\r'
}

/// The end of the word starting at `i`: the first index at or past `i` that
/// is past the end or holds whitespace.
pub open spec fn word_end(s: Seq<char>, i: int) -> int
    decreases s.len() - i,
{
    if i < 0 || i >= s.len() || is_space_char(s[i]) {
        i
    } else {
        word_end(s, i + 1)
    }
}

/// `word_end` stays within bounds and moves forward over a non-space.
pub proof fn lemma_word_end(s: Seq<char>, i: int)
    requires
        0 <= i <= s.len(),
    ensures
        i <= word_end(s, i) <= s.len(),
        i < s.len() && !is_space_char(s[i]) ==> word_end(s, i) > i,
        word_end(s, i) < s.len() ==> is_space_char(s[word_end(s, i)]),
        forall|k: int| i <= k < word_end(s, i) ==> !is_space_char(s[k]),
    decreases s.len() - i,
{
    if i < s.len() && !is_space_char(s[i]) {
        lemma_word_end(s, i + 1);
    }
}

/// The whitespace-separated words of `s`, from index `i` on.
pub open spec fn words_from(s: Seq<char>, i: int) -> Seq<Seq<char>>
    decreases s.len() - i,
{
    if i < 0 || i >= s.len() {
        Seq::empty()
    } else if is_space_char(s[i]) {
        words_from(s, i + 1)
    } else {
        let e = word_end(s, i);
        let next = if i < e <= s.len() {
            e
        } else {
            i + 1
        };
        seq![s.subrange(i, e)] + words_from(s, next)
    }
}

/// The whitespace-separated words of `s`.
pub open spec fn spec_words(s: Seq<char>) -> Seq<Seq<char>> {
    words_from(s, 0)
}

/// Split `s` into its whitespace-separated words.
pub fn split_words(s: &str) -> (r: Vec<String>)
    ensures
        str_views(r@) == spec_words(s@),
{
    let n = s.unicode_len();
    let mut out: Vec<String> = Vec::new();
    let mut i: usize = 0;
    proof {
        assert(str_views(out@) =~= Seq::<Seq<char>>::empty());
    }
    while i < n
        invariant
            n == s@.len(),
            i <= n,
            str_views(out@) + words_from(s@, i as int) == spec_words(s@),
        decreases n - i,
    {
        let c = s.get_char(i);
        if space_char(c) {
            i += 1;
            proof {
                assert(str_views(out@) + words_from(s@, i as int) =~= spec_words(s@));
            }
        } else {
            proof {
                lemma_word_end(s@, i as int);
            }
            let mut j: usize = i + 1;
            while j < n && !space_char(s.get_char(j))
                invariant
                    n == s@.len(),
                    i < j <= n,
                    !is_space_char(s@[i as int]),
                    forall|k: int| i <= k < j ==> !is_space_char(s@[k]),
                decreases n - j,
            {
                j += 1;
            }
            proof {
                lemma_word_end_at(s@, i as int, j as int);
            }
            let word = s.substring_char(i, j);
            let ghost before = out@;
            out.push(String::from_str(word));
            proof {
                assert(str_views(out@) =~= str_views(before).push(word@));
            }
            i = j;
            proof {
                assert(str_views(out@) + words_from(s@, i as int) =~= spec_words(s@));
            }
        }
    }
    proof {
        assert(words_from(s@, n as int) =~= Seq::<Seq<char>>::empty());
        assert(str_views(out@) =~= spec_words(s@));
    }
    out
}

/// If everything from `i` up to `j` is non-space and `j` is the end or a
/// space, then `j` is where the word starting at `i` ends.
proof fn lemma_word_end_at(s: Seq<char>, i: int, j: int)
    requires
        0 <= i < j <= s.len(),
        forall|k: int| i <= k < j ==> !is_space_char(s[k]),
        j < s.len() ==> is_space_char(s[j]),
    ensures
        word_end(s, i) == j,
    decreases j - i,
{
    if i + 1 < j {
        lemma_word_end_at(s, i + 1, j);
    } else {
        assert(word_end(s, j) == j);
    }
    assert(word_end(s, i) == word_end(s, i + 1));
}

/// The words joined with the separator `sep` between neighbours.
pub open spec fn spec_join_sep(words: Seq<Seq<char>>, sep: Seq<char>) -> Seq<char>
    decreases words.len(),
{
    if words.len() == 0 {
        Seq::empty()
    } else if words.len() == 1 {
        words.first()
    } else {
        words.first() + sep + spec_join_sep(words.drop_first(), sep)
    }
}

/// The words joined with single spaces.
pub open spec fn spec_join(words: Seq<Seq<char>>) -> Seq<char> {
    spec_join_sep(words, seq![' '])
}

/// Appending one more word appends the separator and the word.
proof fn lemma_join_push(words: Seq<Seq<char>>, sep: Seq<char>, x: Seq<char>)
    ensures
        words.len() == 0 ==> spec_join_sep(words.push(x), sep) == x,
        words.len() > 0 ==> spec_join_sep(words.push(x), sep) == spec_join_sep(words, sep) + sep
            + x,
    decreases words.len(),
{
    if words.len() == 0 {
        assert(words.push(x).len() == 1);
        assert(words.push(x).first() == x);
        assert(spec_join_sep(words.push(x), sep) =~= x);
    } else {
        lemma_join_push(words.drop_first(), sep, x);
        assert(words.push(x).drop_first() =~= words.drop_first().push(x));
        assert(words.push(x).first() == words.first());
        if words.len() == 1 {
            assert(spec_join_sep(words.push(x), sep) =~= spec_join_sep(words, sep) + sep + x);
        } else {
            assert(spec_join_sep(words.push(x), sep) =~= spec_join_sep(words, sep) + sep + x);
        }
    }
}

/// Join the strings, putting `sep` between neighbours.
pub fn join_with(words: &Vec<String>, sep: &str) -> (r: String)
    ensures
        r@ == spec_join_sep(str_views(words@), sep@),
{
    let mut out = String::new();
    let n = words.len();
    let mut i: usize = 0;
    proof {
        assert(str_views(words@).take(0) =~= Seq::<Seq<char>>::empty());
    }
    while i < n
        invariant
            n == words@.len(),
            i <= n,
            out@ == spec_join_sep(str_views(words@).take(i as int), sep@),
        decreases n - i,
    {
        if i > 0 {
            out.append(sep);
        }
        out.append(words[i].as_str());
        proof {
            let vs = str_views(words@);
            lemma_join_push(vs.take(i as int), sep@, vs[i as int]);
            assert(vs.take(i + 1) =~= vs.take(i as int).push(vs[i as int]));
            assert(out@ =~= spec_join_sep(vs.take(i + 1), sep@));
        }
        i += 1;
    }
    proof {
        assert(str_views(words@).take(n as int) =~= str_views(words@));
    }
    out
}

/// The integer denoted by the decimal digits `s[0..i]`.
pub open spec fn digits_value(s: Seq<char>, i: int) -> int
    decreases i,
{
    if i <= 0 {
        0
    } else {
        digits_value(s, i - 1) * 10 + digit_of(s[i - 1])
    }
}

/// The numeric value of a digit character; anything else counts zero.
pub open spec fn digit_of(c: char) -> int {
    if c == '0' {
        0
    } else if c == '1' {
        1
    } else if c == '2' {
        2
    } else if c == '3' {
        3
    } else if c == '4' {
        4
    } else if c == '5' {
        5
    } else if c == '6' {
        6
    } else if c == '7' {
        7
    } else if c == '8' {
        8
    } else {
        9
    }
}

/// Whether the character is a decimal digit.
pub open spec fn is_digit_char(c: char) -> bool {
    c == '0' || c == '1' || c == '2' || c == '3' || c == '4' || c == '5' || c == '6' || c == '7'
        || c == '8' || c == '9'
}

/// The length of the digit prefix of `s`.
pub open spec fn digit_prefix_len(s: Seq<char>) -> int
    decreases s.len(),
{
    if s.len() == 0 || !is_digit_char(s.first()) {
        0
    } else {
        1 + digit_prefix_len(s.drop_first())
    }
}

/// Bounds of the digit prefix, and what it holds.
pub proof fn lemma_digit_prefix(s: Seq<char>)
    ensures
        0 <= digit_prefix_len(s) <= s.len(),
        forall|k: int| 0 <= k < digit_prefix_len(s) ==> is_digit_char(s[k]),
        digit_prefix_len(s) < s.len() ==> !is_digit_char(s[digit_prefix_len(s)]),
    decreases s.len(),
{
    if s.len() > 0 && is_digit_char(s.first()) {
        lemma_digit_prefix(s.drop_first());
        assert forall|k: int| 0 <= k < digit_prefix_len(s) implies is_digit_char(s[k]) by {
            if k > 0 {
                assert(is_digit_char(s.drop_first()[k - 1]));
            }
        }
    }
}

/// A digit value never shrinks when digits are appended.
proof fn lemma_digits_value_nonneg(s: Seq<char>, i: int)
    ensures
        digits_value(s, i) >= 0,
    decreases i,
{
    if i > 0 {
        lemma_digits_value_nonneg(s, i - 1);
        assert(digits_value(s, i - 1) * 10 >= 0) by (nonlinear_arith)
            requires
                digits_value(s, i - 1) >= 0,
        ;
    }
}

/// The value a decimal string starts with, saturated to `i64::MAX`.
pub open spec fn spec_int_prefix(s: Seq<char>) -> int {
    if digits_value(s, digit_prefix_len(s)) > i64::MAX {
        i64::MAX as int
    } else {
        digits_value(s, digit_prefix_len(s))
    }
}

/// The integer a decimal string starts with: the value of its digit prefix,
/// saturated to `i64::MAX`. `None` when the string starts with no digit.
pub fn parse_int_prefix(s: &str) -> (r: Option<i64>)
    ensures
        match r {
            Some(v) => digit_prefix_len(s@) > 0 && v >= 0 && v as int == spec_int_prefix(s@),
            None => digit_prefix_len(s@) == 0,
        },
{
    proof {
        lemma_digit_prefix(s@);
    }
    let n = s.unicode_len();
    if n == 0 {
        return None;
    }
    if !digit_char_exec(s.get_char(0)) {
        proof {
            assert(s@.first() == s@[0]);
        }
        return None;
    }
    let top: u128 = 0x8000_0000_0000_0000;
    let mut acc: u128 = 0;
    let mut i: usize = 0;
    while i < n && digit_char_exec(s.get_char(i))
        invariant
            n == s@.len(),
            i <= n,
            top == 0x8000_0000_0000_0000,
            forall|k: int| 0 <= k < i ==> is_digit_char(s@[k]),
            acc <= top,
            acc as int == if digits_value(s@, i as int) > top as int {
                top as int
            } else {
                digits_value(s@, i as int)
            },
        decreases n - i,
    {
        let d = digit_value_exec(s.get_char(i));
        proof {
            lemma_digits_value_nonneg(s@, i as int);
            assert(digits_value(s@, i as int) > top as int ==> digits_value(s@, i as int) * 10 + digit_of(
                s@[i as int],
            ) > top as int) by (nonlinear_arith)
                requires
                    digit_of(s@[i as int]) >= 0,
                    top > 0,
            ;
            assert(digits_value(s@, i as int) <= top as int ==> digits_value(s@, i as int) * 10 <= top as int
                * 10) by (nonlinear_arith)
                requires
                    true,
            ;
        }
        let next = acc * 10 + (d as u128);
        acc = if next > top {
            top
        } else {
            next
        };
        i += 1;
    }
    proof {
        assert(digit_prefix_len(s@) == i as int) by {
            lemma_digit_prefix_at(s@, i as int);
        }
        assert(i64::MAX as int == top as int - 1);
    }
    if acc > i64::MAX as u128 {
        Some(i64::MAX)
    } else {
        Some(acc as i64)
    }
}

/// If everything before `i` is a digit and `i` is the end or no digit, the
/// digit prefix ends at `i`.
proof fn lemma_digit_prefix_at(s: Seq<char>, i: int)
    requires
        0 <= i <= s.len(),
        forall|k: int| 0 <= k < i ==> is_digit_char(s[k]),
        i < s.len() ==> !is_digit_char(s[i]),
    ensures
        digit_prefix_len(s) == i,
    decreases s.len(),
{
    if s.len() > 0 && is_digit_char(s.first()) {
        assert(i > 0);
        lemma_digit_prefix_at(s.drop_first(), i - 1);
    }
}

/// Whether the character is a decimal digit.
fn digit_char_exec(c: char) -> (r: bool)
    ensures
        r == is_digit_char(c),
{
    c == '0' || c == '1' || c == '2' || c == '3' || c == '4' || c == '5' || c == '6' || c == '7'
        || c == '8' || c == '9'
}

/// The numeric value of a digit character.
fn digit_value_exec(c: char) -> (r: u8)
    requires
        is_digit_char(c),
    ensures
        r as int == digit_of(c),
        r <= 9,
{
    if c == '0' {
        0
    } else if c == '1' {
        1
    } else if c == '2' {
        2
    } else if c == '3' {
        3
    } else if c == '4' {
        4
    } else if c == '5' {
        5
    } else if c == '6' {
        6
    } else if c == '7' {
        7
    } else if c == '8' {
        8
    } else {
        9
    }
}

/// The number of leading whitespace characters of `s`.
pub open spec fn space_prefix_len(s: Seq<char>) -> int
    decreases s.len(),
{
    if s.len() == 0 || !is_space_char(s.first()) {
        0
    } else {
        1 + space_prefix_len(s.drop_first())
    }
}

/// Bounds of the whitespace prefix, and what it holds.
pub proof fn lemma_space_prefix(s: Seq<char>)
    ensures
        0 <= space_prefix_len(s) <= s.len(),
        forall|k: int| 0 <= k < space_prefix_len(s) ==> is_space_char(s[k]),
        space_prefix_len(s) < s.len() ==> !is_space_char(s[space_prefix_len(s)]),
    decreases s.len(),
{
    if s.len() > 0 && is_space_char(s.first()) {
        lemma_space_prefix(s.drop_first());
        assert forall|k: int| 0 <= k < space_prefix_len(s) implies is_space_char(s[k]) by {
            if k > 0 {
                assert(is_space_char(s.drop_first()[k - 1]));
            }
        }
    }
}

/// `s` without its leading whitespace.
pub open spec fn spec_trim_start(s: Seq<char>) -> Seq<char> {
    s.skip(space_prefix_len(s))
}

/// Drop the leading whitespace of `s`.
pub fn trim_start(s: &str) -> (r: String)
    ensures
        r@ == spec_trim_start(s@),
{
    proof {
        lemma_space_prefix(s@);
    }
    let n = s.unicode_len();
    let mut i: usize = 0;
    while i < n && space_char(s.get_char(i))
        invariant
            n == s@.len(),
            i <= n,
            forall|k: int| 0 <= k < i ==> is_space_char(s@[k]),
        decreases n - i,
    {
        i += 1;
    }
    proof {
        lemma_space_prefix_at(s@, i as int);
    }
    String::from_str(s.substring_char(i, n))
}

/// If everything before `i` is whitespace and `i` is the end or no
/// whitespace, the whitespace prefix ends at `i`.
proof fn lemma_space_prefix_at(s: Seq<char>, i: int)
    requires
        0 <= i <= s.len(),
        forall|k: int| 0 <= k < i ==> is_space_char(s[k]),
        i < s.len() ==> !is_space_char(s[i]),
    ensures
        space_prefix_len(s) == i,
    decreases s.len(),
{
    if s.len() > 0 && is_space_char(s.first()) {
        assert(i > 0);
        lemma_space_prefix_at(s.drop_first(), i - 1);
    }
}

/// The number of trailing whitespace characters of `s`.
pub open spec fn space_suffix_len(s: Seq<char>) -> int
    decreases s.len(),
{
    if s.len() == 0 || !is_space_char(s.last()) {
        0
    } else {
        1 + space_suffix_len(s.drop_last())
    }
}

/// Bounds of the whitespace suffix, and what it holds.
pub proof fn lemma_space_suffix(s: Seq<char>)
    ensures
        0 <= space_suffix_len(s) <= s.len(),
        forall|k: int| s.len() - space_suffix_len(s) <= k < s.len() ==> is_space_char(s[k]),
        space_suffix_len(s) < s.len() ==> !is_space_char(s[s.len() - space_suffix_len(s) - 1]),
    decreases s.len(),
{
    if s.len() > 0 && is_space_char(s.last()) {
        lemma_space_suffix(s.drop_last());
        assert forall|k: int|
            s.len() - space_suffix_len(s) <= k < s.len() implies is_space_char(s[k]) by {
            if k < s.len() - 1 {
                assert(is_space_char(s.drop_last()[k]));
            }
        }
    }
}

/// `s` without its trailing whitespace.
pub open spec fn spec_trim_end(s: Seq<char>) -> Seq<char> {
    s.take(s.len() - space_suffix_len(s))
}

/// Drop the trailing whitespace of `s`.
pub fn trim_end(s: &str) -> (r: String)
    ensures
        r@ == spec_trim_end(s@),
{
    proof {
        lemma_space_suffix(s@);
    }
    let n = s.unicode_len();
    let mut j: usize = n;
    while j > 0 && space_char(s.get_char(j - 1))
        invariant
            n == s@.len(),
            j <= n,
            forall|k: int| j <= k < n ==> is_space_char(s@[k]),
        decreases j,
    {
        j -= 1;
    }
    proof {
        lemma_space_suffix_at(s@, j as int);
    }
    String::from_str(s.substring_char(0, j))
}

/// If everything at or past `j` is whitespace and `j` is zero or preceded by
/// no whitespace, the whitespace suffix starts at `j`.
proof fn lemma_space_suffix_at(s: Seq<char>, j: int)
    requires
        0 <= j <= s.len(),
        forall|k: int| j <= k < s.len() ==> is_space_char(s[k]),
        j > 0 ==> !is_space_char(s[j - 1]),
    ensures
        space_suffix_len(s) == s.len() - j,
    decreases s.len(),
{
    if s.len() > 0 && is_space_char(s.last()) {
        assert(j < s.len());
        lemma_space_suffix_at(s.drop_last(), j);
    }
}

/// Whether the character is one of the desktop-entry field codes `U`, `u`,
/// `F`, `f`.
pub open spec fn is_field_code(c: char) -> bool {
    c == 'U' || c == 'u' || c == 'F' || c == 'f'
}

/// `t` with every ` %U`, ` %u`, ` %F`, ` %f` removed, read from `i` on.
pub open spec fn strip_codes_from(t: Seq<char>, i: int) -> Seq<char>
    decreases t.len() - i,
{
    if i < 0 || i >= t.len() {
        Seq::empty()
    } else if i + 2 < t.len() && t[i] == ' ' && t[i + 1] == '%' && is_field_code(t[i + 2]) {
        strip_codes_from(t, i + 3)
    } else {
        seq![t[i]] + strip_codes_from(t, i + 1)
    }
}

/// `t` with every ` %U`, ` %u`, ` %F`, ` %f` placeholder removed.
pub open spec fn spec_strip_codes(t: Seq<char>) -> Seq<char> {
    strip_codes_from(t, 0)
}

/// Remove every ` %U`, ` %u`, ` %F`, ` %f` placeholder from a desktop-entry
/// command line.
pub fn strip_field_codes(t: &str) -> (r: String)
    ensures
        r@ == spec_strip_codes(t@),
{
    let n = t.unicode_len();
    let mut out = String::new();
    let mut i: usize = 0;
    while i < n
        invariant
            n == t@.len(),
            i <= n,
            out@ + strip_codes_from(t@, i as int) == spec_strip_codes(t@),
        decreases n - i,
    {
        let c = t.get_char(i);
        if c == ' ' && n - i > 2 && t.get_char(i + 1) == '%' && {
            let c2 = t.get_char(i + 2);
            c2 == 'U' || c2 == 'u' || c2 == 'F' || c2 == 'f'
        } {
            i += 3;
        } else {
            let piece = t.substring_char(i, i + 1);
            proof {
                assert(piece@ =~= seq![t@[i as int]]);
            }
            out.append(piece);
            i += 1;
        }
        proof {
            assert(out@ + strip_codes_from(t@, i as int) =~= spec_strip_codes(t@));
        }
    }
    proof {
        assert(strip_codes_from(t@, n as int) =~= Seq::<char>::empty());
        assert(out@ =~= spec_strip_codes(t@));
    }
    out
}

} // verus!

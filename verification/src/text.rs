//! Character-level helpers: Unicode white space, searching, splitting into
//! words, and decimal rendering of integers.
use vstd::prelude::*;

verus! {

/// The Unicode `White_Space` property, which is what `char::is_whitespace`
/// tests: U+0009..U+000D, U+0020, U+0085, U+00A0, U+1680, U+2000..U+200A,
/// U+2028, U+2029, U+202F, U+205F and U+3000.
pub open spec fn is_space(c: char) -> bool {
    let u = c as u32;
    ||| 0x9 <= u <= 0xD
    ||| u == 0x20
    ||| u == 0x85
    ||| u == 0xA0
    ||| u == 0x1680
    ||| 0x2000 <= u <= 0x200A
    ||| u == 0x2028
    ||| u == 0x2029
    ||| u == 0x202F
    ||| u == 0x205F
    ||| u == 0x3000
}

/// Does `c` carry the Unicode `White_Space` property?
pub fn is_space_char(c: char) -> (res: bool)
    ensures
        res == is_space(c),
{
    let u: u32 = c as u32;
    (0x9 <= u && u <= 0xD) || u == 0x20 || u == 0x85 || u == 0xA0 || u == 0x1680 || (0x2000 <= u
        && u <= 0x200A) || u == 0x2028 || u == 0x2029 || u == 0x202F || u == 0x205F || u == 0x3000
}

/// The position of the first `c` in `s` at or after `i`, or `s.len()` when
/// there is none.
pub open spec fn index_from(s: Seq<char>, c: char, i: int) -> int
    decreases s.len() - i,
{
    if i >= s.len() {
        s.len() as int
    } else if s[i] == c {
        i
    } else {
        index_from(s, c, i + 1)
    }
}

/// The position of the first `c` in `s`, or `s.len()` when there is none.
pub open spec fn first_index(s: Seq<char>, c: char) -> int {
    index_from(s, c, 0)
}

/// `index_from` lands on `c` or on the end, and passes over no `c`.
pub proof fn lemma_index_from(s: Seq<char>, c: char, i: int)
    requires
        0 <= i <= s.len(),
    ensures
        i <= index_from(s, c, i) <= s.len(),
        index_from(s, c, i) < s.len() ==> s[index_from(s, c, i)] == c,
        forall|k: int| i <= k < index_from(s, c, i) ==> s[k] != c,
    decreases s.len() - i,
{
    if i < s.len() && s[i] != c {
        lemma_index_from(s, c, i + 1);
    }
}

/// A position `k` with no `c` before it, and `c` or the end at it, is the
/// first position of `c`.
pub proof fn lemma_first_index_unique(s: Seq<char>, c: char, k: int)
    requires
        0 <= k <= s.len(),
        k < s.len() ==> s[k] == c,
        forall|j: int| 0 <= j < k ==> s[j] != c,
    ensures
        first_index(s, c) == k,
{
    lemma_index_from(s, c, 0);
    let f = first_index(s, c);
    if f < k {
        assert(s[f] != c);
    } else if f > k {
        assert(s[k] == c);
    }
}

/// The end of the run of non-space characters that starts at `i`.
pub open spec fn run_end(s: Seq<char>, i: int) -> int
    decreases s.len() - i,
{
    if i >= s.len() || is_space(s[i]) {
        i
    } else {
        run_end(s, i + 1)
    }
}

pub proof fn lemma_run_end(s: Seq<char>, i: int)
    requires
        0 <= i <= s.len(),
    ensures
        i <= run_end(s, i) <= s.len(),
        run_end(s, i) < s.len() ==> is_space(s[run_end(s, i)]),
        forall|k: int| i <= k < run_end(s, i) ==> !is_space(s[k]),
    decreases s.len() - i,
{
    if i < s.len() && !is_space(s[i]) {
        lemma_run_end(s, i + 1);
    }
}

/// A run of non-space characters that ends at the end of `s` or at a
/// space ends where `run_end` says.
pub proof fn lemma_run_end_unique(s: Seq<char>, i: int, e: int)
    requires
        0 <= i <= e <= s.len(),
        forall|k: int| i <= k < e ==> !is_space(s[k]),
        e < s.len() ==> is_space(s[e]),
    ensures
        run_end(s, i) == e,
    decreases e - i,
{
    if i < e {
        lemma_run_end_unique(s, i + 1, e);
    }
}

/// The words of `s` from position `i` on: the maximal runs of non-space
/// characters, in order, as `str::split_whitespace` yields them.
pub open spec fn words_from(s: Seq<char>, i: int) -> Seq<Seq<char>>
    decreases s.len() - i,
{
    if i < 0 || i >= s.len() {
        Seq::empty()
    } else if is_space(s[i]) {
        words_from(s, i + 1)
    } else {
        let j = run_end(s, i + 1);
        proof {
            lemma_run_end(s, i + 1);
        }
        seq![s.subrange(i, j)] + words_from(s, j)
    }
}

/// The words of `s`.
pub open spec fn words(s: Seq<char>) -> Seq<Seq<char>> {
    words_from(s, 0)
}

/// Strings joined by single spaces, as `[String]::join(" ")` joins them.
pub open spec fn join_words(ws: Seq<Seq<char>>) -> Seq<char>
    decreases ws.len(),
{
    if ws.len() == 0 {
        Seq::empty()
    } else if ws.len() == 1 {
        ws[0]
    } else {
        ws[0] + seq![' '] + join_words(ws.drop_first())
    }
}

/// The view of a vector of strings: the sequence of their characters.
pub open spec fn strings_view(v: Seq<String>) -> Seq<Seq<char>> {
    v.map_values(|x: String| x@)
}

/// The characters of `s`, one by one.
pub fn chars_of(s: &str) -> (res: Vec<char>)
    ensures
        res@ == s@,
{
    let mut res: Vec<char> = Vec::new();
    for c in it: s.chars()
        invariant
            it.seq() == s@,
            res@ == s@.take(it.index() as int),
    {
        res.push(c);
    }
    assert(res@ =~= s@);
    res
}

/// The position of the first `c` in `s`, or `s.len()` when there is none.
pub fn find_char(s: &Vec<char>, c: char) -> (res: usize)
    ensures
        res == first_index(s@, c),
{
    let mut i: usize = 0;
    while i < s.len()
        invariant
            i <= s.len(),
            first_index(s@, c) == index_from(s@, c, i as int),
        decreases s.len() - i,
    {
        if s[i] == c {
            return i;
        }
        i += 1;
    }
    i
}

/// The words of `chars[..end]` from position `from` on, each cut out of
/// `text`, whose characters `chars` are.
pub fn split_words(text: &str, chars: &Vec<char>, from: usize, end: usize) -> (res: Vec<String>)
    requires
        chars@ == text@,
        from <= end <= chars.len(),
    ensures
        strings_view(res@) == words_from(chars@.subrange(0, end as int), from as int),
{
    let ghost line = chars@.subrange(0, end as int);
    let mut res: Vec<String> = Vec::new();
    let mut i: usize = from;
    while i < end
        invariant
            chars@ == text@,
            from <= i <= end <= chars.len(),
            line == chars@.subrange(0, end as int),
            words_from(line, from as int) == strings_view(res@) + words_from(line, i as int),
        decreases end - i,
    {
        if is_space_char(chars[i]) {
            i += 1;
        } else {
            let mut j: usize = i + 1;
            while j < end && !is_space_char(chars[j])
                invariant
                    i < j <= end <= chars.len(),
                    line == chars@.subrange(0, end as int),
                    run_end(line, i + 1) == run_end(line, j as int),
                decreases end - j,
            {
                j += 1;
            }
            let word = text.substring_char(i, j).to_owned();
            proof {
                assert(word@ =~= line.subrange(i as int, j as int));
                assert(strings_view(res@.push(word)) =~= strings_view(res@).push(word@));
            }
            res.push(word);
            i = j;
        }
    }
    res
}

/// The decimal digit character for `d`, `0` to `9`.
pub open spec fn digit(d: int) -> char {
    (d + 48) as char
}

/// The decimal rendering of `n`, as `Display` writes it: no leading zeros.
pub open spec fn decimal(n: nat) -> Seq<char>
    decreases n,
{
    if n < 10 {
        seq![digit(n as int)]
    } else {
        decimal(n / 10).push(digit((n % 10) as int))
    }
}

/// A decimal digit character, `0` to `9`.
pub open spec fn is_digit(c: char) -> bool {
    48 <= c as int <= 57
}

/// The number that a string of decimal digits denotes, read in base ten.
pub open spec fn digits_value(s: Seq<char>) -> int
    decreases s.len(),
{
    if s.len() == 0 {
        0
    } else {
        digits_value(s.drop_last()) * 10 + (s.last() as int - 48)
    }
}

/// The number that an optionally signed string of digits denotes.
pub open spec fn signed_digits_value(s: Seq<char>) -> int {
    if s.len() > 0 && s[0] == '-' {
        -digits_value(s.drop_first())
    } else {
        digits_value(s)
    }
}

/// A rendering of a natural number: at least one digit, all of them digits,
/// and no leading zero except for zero itself.
pub open spec fn is_numeral(s: Seq<char>) -> bool {
    &&& s.len() >= 1
    &&& forall|i: int| 0 <= i < s.len() ==> is_digit(#[trigger] s[i])
    &&& s[0] == '0' ==> s.len() == 1
}

/// The decimal rendering of `n` is a numeral, and read back in base ten it
/// is `n`.
pub proof fn lemma_decimal_denotes(n: nat)
    ensures
        is_numeral(decimal(n)),
        digits_value(decimal(n)) == n,
        decimal(n)[0] == '0' <==> n == 0,
    decreases n,
{
    let s = decimal(n);
    if n >= 10 {
        let q = (n / 10) as nat;
        lemma_decimal_denotes(q);
        let d = (n % 10) as int;
        assert(s == decimal(q).push(digit(d)));
        assert(s.drop_last() =~= decimal(q));
        assert((d + 48) as char as int == d + 48);
        assert(s.last() as int == d + 48);
        assert(s[0] == decimal(q)[0]);
        assert forall|i: int| 0 <= i < s.len() implies is_digit(#[trigger] s[i]) by {
            if i < s.len() - 1 {
                assert(s[i] == decimal(q)[i]);
            }
        }
        assert(n == q * 10 + d);
    } else {
        assert((n as int + 48) as char as int == n + 48);
        assert(s.drop_last() =~= Seq::<char>::empty());
        assert(digits_value(s.drop_last()) == 0);
    }
}

/// The signed rendering of `n`: a minus sign then a numeral for negative
/// `n`, a numeral otherwise; read back, it is `n`.
pub proof fn lemma_signed_decimal_denotes(n: int)
    ensures
        signed_digits_value(signed_decimal(n)) == n,
        n < 0 ==> signed_decimal(n)[0] == '-' && is_numeral(signed_decimal(n).drop_first()),
        n >= 0 ==> is_numeral(signed_decimal(n)),
{
    if n < 0 {
        lemma_decimal_denotes((-n) as nat);
        assert((seq!['-'] + decimal((-n) as nat)).drop_first() =~= decimal((-n) as nat));
    } else {
        lemma_decimal_denotes(n as nat);
        assert(decimal(n as nat)[0] != '-');
    }
}

/// The decimal rendering of a signed `n`: a minus sign before the digits
/// when negative.
pub open spec fn signed_decimal(n: int) -> Seq<char> {
    if n < 0 {
        seq!['-'] + decimal((-n) as nat)
    } else {
        decimal(n as nat)
    }
}

/// The text of one decimal digit.
fn digit_text(d: u64) -> (res: &'static str)
    requires
        d < 10,
    ensures
        res@ == seq![digit(d as int)],
{
    proof {
        reveal_strlit("0");
        reveal_strlit("1");
        reveal_strlit("2");
        reveal_strlit("3");
        reveal_strlit("4");
        reveal_strlit("5");
        reveal_strlit("6");
        reveal_strlit("7");
        reveal_strlit("8");
        reveal_strlit("9");
    }
    if d == 0 {
        "0"
    } else if d == 1 {
        "1"
    } else if d == 2 {
        "2"
    } else if d == 3 {
        "3"
    } else if d == 4 {
        "4"
    } else if d == 5 {
        "5"
    } else if d == 6 {
        "6"
    } else if d == 7 {
        "7"
    } else if d == 8 {
        "8"
    } else {
        "9"
    }
}

/// Appends the decimal rendering of `n` to `s`.
pub fn push_decimal(s: &mut String, n: u64)
    ensures
        final(s)@ == old(s)@ + decimal(n as nat),
    decreases n,
{
    if n >= 10 {
        push_decimal(s, n / 10);
    }
    s.append(digit_text(n % 10));
    proof {
        if n >= 10 {
            assert(old(s)@ + decimal((n / 10) as nat) + seq![digit((n % 10) as int)] =~= old(s)@
                + decimal(n as nat));
        } else {
            assert(seq![digit((n % 10) as int)] =~= decimal(n as nat));
        }
    }
}

/// The decimal rendering of `n`.
pub fn decimal_text(n: u64) -> (res: String)
    ensures
        res@ == decimal(n as nat),
{
    let mut s = String::new();
    push_decimal(&mut s, n);
    proof {
        assert(Seq::<char>::empty() + decimal(n as nat) =~= decimal(n as nat));
    }
    s
}

/// The decimal rendering of a signed `n`.
pub fn signed_decimal_text(n: i64) -> (res: String)
    ensures
        res@ == signed_decimal(n as int),
{
    if n < 0 {
        proof {
            reveal_strlit("-");
        }
        let mut s = String::from_str("-");
        let magnitude: u64 = (-(n + 1)) as u64 + 1;
        push_decimal(&mut s, magnitude);
        s
    } else {
        decimal_text(n as u64)
    }
}

} // verus!

//! Text helpers: Unicode whitespace, trimming, words, lines, fields and
//! decimal rendering of integers, each stated over `Seq<char>`.
use vstd::prelude::*;

verus! {

/// The `White_Space` code points of Unicode, the set that `char::is_whitespace` tests.
pub open spec fn is_whitespace(c: char) -> bool {
    let u = c as u32;
    ||| 0x09 <= u <= 0x0D
    ||| u == 0x20
    ||| u == 0x85
    ||| u == 0xA0
    ||| u == 0x1680
    ||| 0x2000 <= u <= 0x200A
    ||| u == 0x2028
    ||| u == 0x2029
    ||| u == 0x202F
    ||| u == 0x205F
    ||| u == 0x3000
}

/// `s` without its leading whitespace.
pub open spec fn trim_start(s: Seq<char>) -> Seq<char>
    decreases s.len(),
{
    if s.len() > 0 && is_whitespace(s[0]) {
        trim_start(s.drop_first())
    } else {
        s
    }
}

/// `s` without its trailing whitespace.
pub open spec fn trim_end(s: Seq<char>) -> Seq<char>
    decreases s.len(),
{
    if s.len() > 0 && is_whitespace(s.last()) {
        trim_end(s.drop_last())
    } else {
        s
    }
}

/// `s` without leading and trailing whitespace.
pub open spec fn trim(s: Seq<char>) -> Seq<char> {
    trim_end(trim_start(s))
}

/// The longest prefix of `s` that holds no whitespace.
pub open spec fn word_prefix(s: Seq<char>) -> Seq<char>
    decreases s.len(),
{
    if s.len() == 0 || is_whitespace(s[0]) {
        Seq::empty()
    } else {
        seq![s[0]] + word_prefix(s.drop_first())
    }
}

/// The first whitespace-separated word of `s`, if it has one.
pub open spec fn first_word(s: Seq<char>) -> Option<Seq<char>> {
    let t = trim_start(s);
    if t.len() == 0 {
        None
    } else {
        Some(word_prefix(t))
    }
}

/// The index of the first `c` in `s`, or the length of `s` when it holds none.
pub open spec fn char_pos(s: Seq<char>, c: char) -> nat
    decreases s.len(),
{
    if s.len() == 0 || s[0] == c {
        0
    } else {
        1 + char_pos(s.drop_first(), c)
    }
}

/// `s` without one trailing carriage return.
pub open spec fn strip_cr(s: Seq<char>) -> Seq<char> {
    if s.len() > 0 && s.last() == '\r' {
        s.drop_last()
    } else {
        s
    }
}

/// The lines of `s`: pieces ended by `\n`, with the `\r` of a `\r\n` ending
/// removed; a final line ending adds no empty line.
pub open spec fn lines(s: Seq<char>) -> Seq<Seq<char>>
    decreases s.len(),
{
    if s.len() == 0 {
        Seq::empty()
    } else {
        let k = char_pos(s, '\n');
        if k >= s.len() {
            seq![s]
        } else {
            seq![strip_cr(s.take(k as int))] + lines(s.skip(k + 1int))
        }
    }
}

/// The piece after the first `:` up to the next `:` (the second piece of a
/// split on `:`), or `None` when `s` holds no `:`.
pub open spec fn second_field(s: Seq<char>) -> Option<Seq<char>> {
    let p = char_pos(s, ':');
    if p >= s.len() {
        None
    } else {
        let rest = s.skip(p + 1int);
        Some(rest.take(char_pos(rest, ':') as int))
    }
}

/// `needle` occurs in `hay` as a contiguous piece.
pub open spec fn contains(hay: Seq<char>, needle: Seq<char>) -> bool {
    exists|i: int| 0 <= i && i + needle.len() <= hay.len() && #[trigger] hay.subrange(i, i + needle.len()) == needle
}

/// The character of a decimal digit.
pub open spec fn digit_char(d: nat) -> char {
    if d == 0 { '0' }
    else if d == 1 { '1' }
    else if d == 2 { '2' }
    else if d == 3 { '3' }
    else if d == 4 { '4' }
    else if d == 5 { '5' }
    else if d == 6 { '6' }
    else if d == 7 { '7' }
    else if d == 8 { '8' }
    else { '9' }
}

/// The decimal digits of `n`, most significant first, without leading zeros.
pub open spec fn nat_decimal(n: nat) -> Seq<char>
    decreases n,
{
    if n < 10 {
        seq![digit_char(n)]
    } else {
        nat_decimal(n / 10).push(digit_char(n % 10))
    }
}

/// The decimal text of `i`, with a leading `-` when it is negative.
pub open spec fn int_decimal(i: int) -> Seq<char> {
    if i < 0 {
        seq!['-'] + nat_decimal((-i) as nat)
    } else {
        nat_decimal(i as nat)
    }
}

/// Whether `c` is Unicode whitespace.
pub fn is_whitespace_char(c: char) -> (b: bool)
    ensures
        b == is_whitespace(c),
{
    let u = c as u32;
    (0x09 <= u && u <= 0x0D) || u == 0x20 || u == 0x85 || u == 0xA0 || u == 0x1680 || (0x2000 <= u
        && u <= 0x200A) || u == 0x2028 || u == 0x2029 || u == 0x202F || u == 0x205F || u == 0x3000
}

/// The characters of `s`, in order.
pub fn chars_of(s: &str) -> (r: Vec<char>)
    ensures
        r@ == s@,
{
    let mut out: Vec<char> = Vec::new();
    for c in it: s.chars()
        invariant
            out@ == it.seq().take(it.index() as int),
    {
        out.push(c);
    }
    out
}

/// Whether two texts hold the same characters.
pub fn text_eq(a: &str, b: &str) -> (r: bool)
    ensures
        r == (a@ == b@),
{
    let ca = chars_of(a);
    let cb = chars_of(b);
    if ca.len() != cb.len() {
        return false;
    }
    let mut i: usize = 0;
    while i < ca.len()
        invariant
            ca@ == a@,
            cb@ == b@,
            ca.len() == cb.len(),
            i <= ca.len(),
            forall|k: int| 0 <= k < i ==> ca@[k] == cb@[k],
        decreases ca.len() - i,
    {
        if ca[i] != cb[i] {
            return false;
        }
        i = i + 1;
    }
    assert(ca@ =~= cb@);
    true
}

proof fn lemma_trim_start_skip(s: Seq<char>, i: int)
    requires
        0 <= i <= s.len(),
        forall|k: int| 0 <= k < i ==> is_whitespace(#[trigger] s[k]),
        i == s.len() || !is_whitespace(s[i]),
    ensures
        trim_start(s) == s.skip(i),
    decreases i,
{
    if i == 0 {
        assert(s.skip(0) =~= s);
    } else {
        assert(is_whitespace(s[0]));
        let t = s.drop_first();
        assert forall|k: int| 0 <= k < i - 1 implies is_whitespace(#[trigger] t[k]) by {
            assert(t[k] == s[k + 1]);
        }
        if i - 1 < t.len() {
            assert(t[i - 1] == s[i]);
        }
        lemma_trim_start_skip(t, i - 1);
        assert(t.skip(i - 1) =~= s.skip(i));
    }
}

proof fn lemma_trim_end_take(s: Seq<char>, j: int)
    requires
        0 <= j <= s.len(),
        forall|k: int| j <= k < s.len() ==> is_whitespace(#[trigger] s[k]),
        j == 0 || !is_whitespace(s[j - 1]),
    ensures
        trim_end(s) == s.take(j),
    decreases s.len() - j,
{
    if j == s.len() {
        assert(s.take(j) =~= s);
    } else {
        assert(is_whitespace(s.last()));
        let t = s.drop_last();
        assert forall|k: int| j <= k < t.len() implies is_whitespace(#[trigger] t[k]) by {
            assert(t[k] == s[k]);
        }
        if j > 0 {
            assert(t[j - 1] == s[j - 1]);
        }
        lemma_trim_end_take(t, j);
        assert(t.take(j) =~= s.take(j));
    }
}

proof fn lemma_word_prefix_take(s: Seq<char>, j: int)
    requires
        0 <= j <= s.len(),
        forall|k: int| 0 <= k < j ==> !is_whitespace(#[trigger] s[k]),
        j == s.len() || is_whitespace(s[j]),
    ensures
        word_prefix(s) == s.take(j),
    decreases j,
{
    if j == 0 {
        assert(s.take(0) =~= Seq::<char>::empty());
    } else {
        assert(!is_whitespace(s[0]));
        let t = s.drop_first();
        assert forall|k: int| 0 <= k < j - 1 implies !is_whitespace(#[trigger] t[k]) by {
            assert(t[k] == s[k + 1]);
        }
        if j - 1 < t.len() {
            assert(t[j - 1] == s[j]);
        }
        lemma_word_prefix_take(t, j - 1);
        assert(seq![s[0]] + t.take(j - 1) =~= s.take(j));
    }
}

/// The index of the first character of `cs` at or after `from` that is not
/// whitespace, or the length of `cs`.
fn skip_whitespace(cs: &Vec<char>, from: usize) -> (r: usize)
    requires
        from <= cs.len(),
    ensures
        from <= r <= cs.len(),
        forall|k: int| from <= k < r ==> is_whitespace(#[trigger] cs@[k]),
        r == cs.len() || !is_whitespace(cs@[r as int]),
{
    let mut i = from;
    while i < cs.len() && is_whitespace_char(cs[i])
        invariant
            from <= i <= cs.len(),
            forall|k: int| from <= k < i ==> is_whitespace(#[trigger] cs@[k]),
        decreases cs.len() - i,
    {
        i = i + 1;
    }
    i
}

/// `s` without leading and trailing Unicode whitespace.
pub fn trim_text(s: &str) -> (r: String)
    ensures
        r@ == trim(s@),
{
    let cs = chars_of(s);
    let i = skip_whitespace(&cs, 0);
    let mut j = cs.len();
    while j > i && is_whitespace_char(cs[j - 1])
        invariant
            i <= j <= cs.len(),
            forall|k: int| j <= k < cs.len() ==> is_whitespace(#[trigger] cs@[k]),
        decreases j,
    {
        j = j - 1;
    }
    proof {
        lemma_trim_start_skip(s@, i as int);
        let t = s@.skip(i as int);
        assert forall|k: int| j - i <= k < t.len() implies is_whitespace(#[trigger] t[k]) by {
            assert(t[k] == s@[k + i]);
        }
        if j > i {
            assert(t[j - i - 1] == s@[j - 1]);
        } else {
            assert(j == i);
        }
        lemma_trim_end_take(t, j - i);
        assert(t.take(j - i) =~= s@.subrange(i as int, j as int));
    }
    s.substring_char(i, j).to_owned()
}

/// The first whitespace-separated word of `s`, if it has one.
pub fn first_word_text(s: &str) -> (r: Option<String>)
    ensures
        match first_word(s@) {
            None => r is None,
            Some(w) => r is Some && r->0@ == w,
        },
{
    let cs = chars_of(s);
    let i = skip_whitespace(&cs, 0);
    proof {
        lemma_trim_start_skip(s@, i as int);
    }
    if i == cs.len() {
        return None;
    }
    let mut j = i;
    while j < cs.len() && !is_whitespace_char(cs[j])
        invariant
            i <= j <= cs.len(),
            forall|k: int| i <= k < j ==> !is_whitespace(#[trigger] cs@[k]),
        decreases cs.len() - j,
    {
        j = j + 1;
    }
    proof {
        let t = s@.skip(i as int);
        assert forall|k: int| 0 <= k < j - i implies !is_whitespace(#[trigger] t[k]) by {
            assert(t[k] == s@[k + i]);
        }
        if j < cs.len() {
            assert(t[j - i] == s@[j as int]);
        }
        lemma_word_prefix_take(t, j - i);
        assert(t.take(j - i) =~= s@.subrange(i as int, j as int));
    }
    Some(s.substring_char(i, j).to_owned())
}


/// The text of one decimal digit.
fn digit_text(d: u64) -> (r: &'static str)
    requires
        d < 10,
    ensures
        r@ == seq![digit_char(d as nat)],
{
    proof {
        reveal_strlit("0");
        reveal_strlit("1");
        reveal_strlit("2");
        reveal_strlit("3");
        reveal_strlit("4");
        reveal_strlit("5");
        reveal_strlit("6");
        reveal_strlit("7");
        reveal_strlit("8");
        reveal_strlit("9");
    }
    if d == 0 {
        "0"
    } else if d == 1 {
        "1"
    } else if d == 2 {
        "2"
    } else if d == 3 {
        "3"
    } else if d == 4 {
        "4"
    } else if d == 5 {
        "5"
    } else if d == 6 {
        "6"
    } else if d == 7 {
        "7"
    } else if d == 8 {
        "8"
    } else {
        "9"
    }
}

/// Appends the decimal digits of `n` to `out`.
fn push_decimal(out: &mut String, n: u64)
    ensures
        final(out)@ == old(out)@ + nat_decimal(n as nat),
    decreases n,
{
    if n >= 10 {
        push_decimal(out, n / 10);
    }
    out.append(digit_text(n % 10));
}

/// The decimal text of an unsigned integer.
pub fn decimal_u64(n: u64) -> (r: String)
    ensures
        r@ == nat_decimal(n as nat),
{
    let mut out = String::new();
    push_decimal(&mut out, n);
    out
}

/// The decimal text of a signed integer, with a leading `-` when negative.
pub fn decimal_i32(v: i32) -> (r: String)
    ensures
        r@ == int_decimal(v as int),
{
    let mut out = String::new();
    if v < 0 {
        out.append("-");
        proof {
            reveal_strlit("-");
        }
        let m: i64 = 0 - (v as i64);
        push_decimal(&mut out, m as u64);
    } else {
        push_decimal(&mut out, v as u64);
    }
    out
}

/// The characters of a sequence of strings.
pub open spec fn views(v: Seq<String>) -> Seq<Seq<char>> {
    v.map_values(|x: String| x@)
}

proof fn lemma_char_pos(s: Seq<char>, c: char, k: int)
    requires
        0 <= k <= s.len(),
        forall|j: int| 0 <= j < k ==> #[trigger] s[j] != c,
        k == s.len() || s[k] == c,
    ensures
        char_pos(s, c) == k,
    decreases k,
{
    if k > 0 {
        let t = s.drop_first();
        assert forall|j: int| 0 <= j < k - 1 implies #[trigger] t[j] != c by {
            assert(t[j] == s[j + 1]);
        }
        if k - 1 < t.len() {
            assert(t[k - 1] == s[k]);
        }
        lemma_char_pos(t, c, k - 1);
    }
}

/// The index of the first `c` in `cs` at or after `from`, or the length of `cs`.
fn find_char(cs: &Vec<char>, c: char, from: usize) -> (r: usize)
    requires
        from <= cs.len(),
    ensures
        from <= r <= cs.len(),
        forall|k: int| from <= k < r ==> #[trigger] cs@[k] != c,
        r == cs.len() || cs@[r as int] == c,
{
    let mut i = from;
    while i < cs.len() && cs[i] != c
        invariant
            from <= i <= cs.len(),
            forall|k: int| from <= k < i ==> #[trigger] cs@[k] != c,
        decreases cs.len() - i,
    {
        i = i + 1;
    }
    i
}

/// Where `s` holds no `c` in `[from, to)` and `c` (or the end) at `to`,
/// the first `c` of `s.skip(from)` stands at `to - from`.
proof fn lemma_char_pos_skip(s: Seq<char>, c: char, from: int, to: int)
    requires
        0 <= from <= to <= s.len(),
        forall|k: int| from <= k < to ==> #[trigger] s[k] != c,
        to == s.len() || s[to] == c,
    ensures
        char_pos(s.skip(from), c) == to - from,
{
    let t = s.skip(from);
    assert forall|j: int| 0 <= j < to - from implies #[trigger] t[j] != c by {
        assert(t[j] == s[j + from]);
    }
    if to < s.len() {
        assert(t[to - from] == s[to]);
    }
    lemma_char_pos(t, c, to - from);
}

/// The lines of `s`, as `str::lines` gives them.
pub fn split_lines(s: &str) -> (r: Vec<String>)
    ensures
        views(r@) == lines(s@),
{
    let cs = chars_of(s);
    let mut out: Vec<String> = Vec::new();
    let mut start: usize = 0;
    proof {
        assert(s@.skip(0) =~= s@);
        assert(views(out@) =~= Seq::<Seq<char>>::empty());
        assert(Seq::<Seq<char>>::empty() + lines(s@) =~= lines(s@));
    }
    while start < cs.len()
        invariant
            cs@ == s@,
            start <= cs.len(),
            views(out@) + lines(s@.skip(start as int)) == lines(s@),
        decreases cs.len() - start,
    {
        let i = find_char(&cs, '\n', start);
        let ghost t = s@.skip(start as int);
        proof {
            lemma_char_pos_skip(s@, '\n', start as int, i as int);
        }
        if i == cs.len() {
            proof {
                assert(t =~= s@.subrange(start as int, i as int));
                assert(lines(s@.skip(i as int)) =~= Seq::<Seq<char>>::empty()) by {
                    assert(s@.skip(i as int).len() == 0);
                }
            }
            let ghost before = views(out@);
            out.push(s.substring_char(start, i).to_owned());
            proof {
                assert(views(out@) =~= before.push(t));
            }
            start = i;
        } else {
            let mut end = i;
            if end > start && cs[end - 1] == '\r' {
                end = end - 1;
            }
            proof {
                let line = t.take((i - start) as int);
                assert(line =~= s@.subrange(start as int, i as int));
                assert(strip_cr(line) =~= s@.subrange(start as int, end as int));
                assert(t.skip((i - start) + 1) =~= s@.skip(i + 1));
            }
            let ghost before = views(out@);
            out.push(s.substring_char(start, end).to_owned());
            proof {
                assert(views(out@) =~= before.push(s@.subrange(start as int, end as int)));
            }
            start = i + 1;
        }
    }
    proof {
        assert(s@.skip(start as int).len() == 0);
        assert(lines(s@.skip(start as int)) =~= Seq::<Seq<char>>::empty());
        assert(views(out@) + Seq::<Seq<char>>::empty() =~= views(out@));
    }
    out
}

/// The piece of `s` after its first `:` up to the next `:`, if `s` holds a `:`.
pub fn second_field_text(s: &str) -> (r: Option<String>)
    ensures
        match second_field(s@) {
            None => r is None,
            Some(f) => r is Some && r->0@ == f,
        },
{
    let cs = chars_of(s);
    let p = find_char(&cs, ':', 0);
    proof {
        lemma_char_pos(s@, ':', p as int);
    }
    if p == cs.len() {
        return None;
    }
    let q = find_char(&cs, ':', p + 1);
    proof {
        lemma_char_pos_skip(s@, ':', p + 1, q as int);
        assert(s@.skip(p + 1int).take(q - p - 1) =~= s@.subrange(p + 1, q as int));
    }
    Some(s.substring_char(p + 1, q).to_owned())
}

/// Whether `needle` occurs in `hay` as a contiguous piece.
pub fn contains_chars(hay: &Vec<char>, needle: &Vec<char>) -> (r: bool)
    ensures
        r == contains(hay@, needle@),
{
    let n = needle.len();
    if n > hay.len() {
        return false;
    }
    let last = hay.len() - n;
    let mut i: usize = 0;
    while i <= last
        invariant
            n == needle.len(),
            last == hay.len() - n,
            i <= last + 1,
            forall|k: int| 0 <= k < i ==> #[trigger] hay@.subrange(k, k + n) != needle@,
        decreases last + 1 - i,
    {
        let mut j: usize = 0;
        while j < n && hay[i + j] == needle[j]
            invariant
                n == needle.len(),
                last == hay.len() - n,
                i <= last,
                j <= n,
                forall|k: int| 0 <= k < j ==> hay@[i + k] == needle@[k],
            decreases n - j,
        {
            j = j + 1;
        }
        if j == n {
            assert(hay@.subrange(i as int, i + n) =~= needle@);
            return true;
        }
        assert(hay@.subrange(i as int, i + n)[j as int] != needle@[j as int]);
        i = i + 1;
    }
    false
}


proof fn lemma_trim_start_suffix(s: Seq<char>)
    ensures
        trim_start(s).len() <= s.len(),
        trim_start(s) == s.skip(s.len() - trim_start(s).len()),
        forall|k: int| 0 <= k < s.len() - trim_start(s).len() ==> is_whitespace(#[trigger] s[k]),
        trim_start(s).len() > 0 ==> !is_whitespace(trim_start(s)[0]),
    decreases s.len(),
{
    if s.len() > 0 && is_whitespace(s[0]) {
        let t = s.drop_first();
        lemma_trim_start_suffix(t);
        assert(t.skip(t.len() - trim_start(t).len()) =~= s.skip(s.len() - trim_start(t).len()));
        assert forall|k: int| 0 <= k < s.len() - trim_start(s).len() implies is_whitespace(
            #[trigger] s[k],
        ) by {
            if k > 0 {
                assert(s[k] == t[k - 1]);
            }
        }
    } else {
        assert(s.skip(0) =~= s);
    }
}

proof fn lemma_trim_end_prefix(s: Seq<char>)
    ensures
        trim_end(s).len() <= s.len(),
        trim_end(s) == s.take(trim_end(s).len() as int),
        forall|k: int| trim_end(s).len() <= k < s.len() ==> is_whitespace(#[trigger] s[k]),
        trim_end(s).len() > 0 ==> !is_whitespace(trim_end(s).last()),
    decreases s.len(),
{
    if s.len() > 0 && is_whitespace(s.last()) {
        let t = s.drop_last();
        lemma_trim_end_prefix(t);
        assert(t.take(trim_end(t).len() as int) =~= s.take(trim_end(t).len() as int));
        assert forall|k: int| trim_end(s).len() <= k < s.len() implies is_whitespace(#[trigger] s[k]) by {
            if k < t.len() {
                assert(s[k] == t[k]);
            }
        }
    } else {
        assert(s.take(s.len() as int) =~= s);
    }
}

/// Trimming removes exactly the whitespace at both ends: the result is the
/// piece of `s` between a run of leading and a run of trailing whitespace,
/// and it neither starts nor ends with whitespace.
pub proof fn law_trim_removes_only_outer_whitespace(s: Seq<char>)
    ensures
        ({
            let t = trim(s);
            let a = s.len() - trim_start(s).len();
            &&& 0 <= a && a + t.len() <= s.len()
            &&& t == s.subrange(a, a + t.len())
            &&& forall|k: int| 0 <= k < a ==> is_whitespace(#[trigger] s[k])
            &&& forall|k: int| a + t.len() <= k < s.len() ==> is_whitespace(#[trigger] s[k])
            &&& t.len() > 0 ==> !is_whitespace(t[0]) && !is_whitespace(t.last())
        }),
{
    lemma_trim_start_suffix(s);
    let u = trim_start(s);
    lemma_trim_end_prefix(u);
    let t = trim(s);
    let a = s.len() - u.len();
    assert(t =~= s.subrange(a, a + t.len()));
    assert forall|k: int| a + t.len() <= k < s.len() implies is_whitespace(#[trigger] s[k]) by {
        assert(s[k] == u[k - a]);
    }
    if t.len() > 0 {
        assert(t[0] == u[0]);
    }
}

/// The numeric value of a sequence of decimal digits.
pub open spec fn digits_value(s: Seq<char>) -> int
    decreases s.len(),
{
    if s.len() == 0 {
        0
    } else {
        digits_value(s.drop_last()) * 10 + (s.last() as int - '0' as int)
    }
}

proof fn lemma_digit_value(d: nat)
    requires
        d < 10,
    ensures
        digit_char(d) as int - '0' as int == d,
{
}

/// The decimal text of `n` is made of the digits `0` to `9`, has no leading
/// zero, and reads back as `n`.
pub proof fn law_decimal_reads_back(n: nat)
    ensures
        nat_decimal(n).len() > 0,
        forall|k: int| 0 <= k < nat_decimal(n).len() ==> '0' <= #[trigger] nat_decimal(n)[k] <= '9',
        n >= 10 ==> nat_decimal(n)[0] != '0',
        digits_value(nat_decimal(n)) == n,
    decreases n,
{
    lemma_digit_value(n % 10);
    if n < 10 {
        assert(n % 10 == n);
        assert(nat_decimal(n).drop_last() =~= Seq::<char>::empty());
        assert(digits_value(Seq::<char>::empty()) == 0);
    }
    if n >= 10 {
        law_decimal_reads_back(n / 10);
        let p = nat_decimal(n / 10);
        assert(nat_decimal(n).drop_last() =~= p);
        assert(nat_decimal(n).last() == digit_char(n % 10));
        assert(digits_value(nat_decimal(n)) == digits_value(p) * 10 + (n % 10));
        assert((n / 10) * 10 + n % 10 == n) by (nonlinear_arith);
        assert forall|k: int| 0 <= k < nat_decimal(n).len() implies '0' <= #[trigger] nat_decimal(n)[k]
            <= '9' by {
            if k < p.len() {
                assert(nat_decimal(n)[k] == p[k]);
            }
        }
        assert(nat_decimal(n)[0] == p[0]);
        if n / 10 < 10 {
            assert(p[0] != '0');
        }
    }
}

proof fn lemma_lines_have_no_newline(s: Seq<char>)
    ensures
        forall|i: int, k: int|
            0 <= i < lines(s).len() && 0 <= k < lines(s)[i].len() ==> #[trigger] lines(s)[i][k] != '\n',
    decreases s.len(),
{
    if s.len() > 0 {
        let k = char_pos(s, '\n');
        lemma_char_pos_prefix(s, '\n');
        if k < s.len() {
            lemma_lines_have_no_newline(s.skip(k + 1int));
            let first = strip_cr(s.take(k as int));
            let rest = lines(s.skip(k + 1int));
            assert forall|i: int, j: int|
                0 <= i < lines(s).len() && 0 <= j < lines(s)[i].len() implies #[trigger] lines(s)[i][j]
                != '\n' by {
                if i == 0 {
                    assert(lines(s)[0] == first);
                    assert(first[j] == s[j]);
                } else {
                    assert(lines(s)[i] == rest[i - 1]);
                }
            }
        }
    }
}

proof fn lemma_char_pos_prefix(s: Seq<char>, c: char)
    ensures
        char_pos(s, c) <= s.len(),
        forall|j: int| 0 <= j < char_pos(s, c) ==> #[trigger] s[j] != c,
        char_pos(s, c) < s.len() ==> s[char_pos(s, c) as int] == c,
    decreases s.len(),
{
    if s.len() > 0 && s[0] != c {
        let t = s.drop_first();
        lemma_char_pos_prefix(t, c);
        assert forall|j: int| 0 <= j < char_pos(s, c) implies #[trigger] s[j] != c by {
            if j > 0 {
                assert(s[j] == t[j - 1]);
            }
        }
    }
}

/// No line holds a line feed, and the second `:`-field holds no `:`.
pub proof fn law_pieces_hold_no_separator(s: Seq<char>)
    ensures
        forall|i: int, k: int|
            0 <= i < lines(s).len() && 0 <= k < lines(s)[i].len() ==> #[trigger] lines(s)[i][k] != '\n',
        second_field(s) matches Some(f) ==> forall|k: int| 0 <= k < f.len() ==> #[trigger] f[k] != ':',
{
    lemma_lines_have_no_newline(s);
    let p = char_pos(s, ':');
    lemma_char_pos_prefix(s, ':');
    if p < s.len() {
        let rest = s.skip(p + 1int);
        lemma_char_pos_prefix(rest, ':');
    }
}


proof fn lemma_word_prefix_props(t: Seq<char>)
    ensures
        word_prefix(t).len() <= t.len(),
        word_prefix(t) == t.take(word_prefix(t).len() as int),
        forall|k: int| 0 <= k < word_prefix(t).len() ==> !is_whitespace(#[trigger] word_prefix(t)[k]),
        word_prefix(t).len() == t.len() || is_whitespace(t[word_prefix(t).len() as int]),
    decreases t.len(),
{
    if t.len() > 0 && !is_whitespace(t[0]) {
        let r = t.drop_first();
        lemma_word_prefix_props(r);
        let w = word_prefix(t);
        assert(w =~= seq![t[0]] + word_prefix(r));
        assert(w =~= t.take(w.len() as int));
        assert forall|k: int| 0 <= k < w.len() implies !is_whitespace(#[trigger] w[k]) by {
            if k > 0 {
                assert(w[k] == word_prefix(r)[k - 1]);
            }
        }
        if w.len() < t.len() {
            assert(t[w.len() as int] == r[word_prefix(r).len() as int]);
        }
    } else {
        assert(t.take(0) =~= Seq::<char>::empty());
    }
}

/// The first word is the first maximal run of non-whitespace characters:
/// there is none exactly when `s` is all whitespace; otherwise it is not
/// empty, holds no whitespace, is preceded in `s` only by whitespace, and is
/// followed by whitespace or the end of `s`.
pub proof fn law_first_word_is_first_run(s: Seq<char>)
    ensures
        first_word(s) is None <==> forall|k: int| 0 <= k < s.len() ==> is_whitespace(#[trigger] s[k]),
        first_word(s) matches Some(w) ==> {
            let a = s.len() - trim_start(s).len();
            &&& w.len() > 0
            &&& forall|k: int| 0 <= k < w.len() ==> !is_whitespace(#[trigger] w[k])
            &&& 0 <= a && a + w.len() <= s.len()
            &&& w == s.subrange(a, a + w.len())
            &&& forall|k: int| 0 <= k < a ==> is_whitespace(#[trigger] s[k])
            &&& (a + w.len() == s.len() || is_whitespace(s[a + w.len()]))
        },
{
    lemma_trim_start_suffix(s);
    let t = trim_start(s);
    let a = s.len() - t.len();
    if t.len() > 0 {
        lemma_word_prefix_props(t);
        let w = word_prefix(t);
        assert(!is_whitespace(t[0]));
        assert(t[0] == s[a]);
        if w.len() == 0 {
            assert(is_whitespace(t[0]));
        }
        assert(w =~= s.subrange(a, a + w.len()));
        if a + w.len() < s.len() {
            assert(s[a + w.len()] == t[w.len() as int]);
        }
    } else {
        assert forall|k: int| 0 <= k < s.len() implies is_whitespace(#[trigger] s[k]) by {}
    }
}

} // verus!

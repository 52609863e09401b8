//! Character-level helpers shared by the whole crate: decimal numbers,
//! path splitting, substring search and string building.
use vstd::prelude::*;

verus! {

/// `c` is an ASCII decimal digit.
pub open spec fn is_digit(c: char) -> bool {
    '0' <= c && c <= '9'
}

/// The value of the ASCII decimal digit `c`.
pub open spec fn digit_value(c: char) -> nat {
    (c as int - '0' as int) as nat
}

/// The ASCII decimal digit for a value below ten.
pub open spec fn digit_char(d: nat) -> char {
    ('0' as int + d) as char
}

/// Every character of `s` is an ASCII decimal digit.
pub open spec fn all_digits(s: Seq<char>) -> bool {
    forall|i: int| 0 <= i < s.len() ==> is_digit(#[trigger] s[i])
}

/// The number written by the digit sequence `s`, most significant first.
pub open spec fn digits_value(s: Seq<char>) -> nat
    decreases s.len(),
{
    if s.len() == 0 {
        0
    } else {
        digits_value(s.drop_last()) * 10 + digit_value(s.last())
    }
}

/// What std's `str::parse` gives for an unsigned integer type, before the
/// range check: an optional leading `+`, then one or more ASCII digits.
pub open spec fn parse_unsigned(s: Seq<char>) -> Option<nat> {
    let d = if s.len() > 0 && s[0] == '+' { s.drop_first() } else { s };
    if d.len() > 0 && all_digits(d) {
        Some(digits_value(d))
    } else {
        None
    }
}

/// `parse_unsigned` restricted to the values that fit below `max`.
pub open spec fn parse_bounded(s: Seq<char>, max: nat) -> Option<nat> {
    match parse_unsigned(s) {
        Some(n) => if n <= max { Some(n) } else { None },
        None => None,
    }
}

/// The decimal notation of `n`, without sign or leading zeros.
pub open spec fn decimal(n: nat) -> Seq<char>
    decreases n,
{
    if n < 10 {
        seq![digit_char(n)]
    } else {
        decimal(n / 10).push(digit_char(n % 10))
    }
}

/// The digit character for a value below ten is a digit of that value.
pub proof fn lemma_digit_char(d: nat)
    requires
        d < 10,
    ensures
        is_digit(digit_char(d)),
        digit_value(digit_char(d)) == d,
{
}

/// Appending one digit multiplies the value by ten and adds the digit.
pub proof fn lemma_digits_value_push(s: Seq<char>, c: char)
    ensures
        digits_value(s.push(c)) == digits_value(s) * 10 + digit_value(c),
{
    assert(s.push(c).drop_last() =~= s);
}

/// A prefix of a digit sequence never has a larger value than the whole.
pub proof fn lemma_digits_value_prefix(s: Seq<char>, i: int)
    requires
        0 <= i <= s.len(),
    ensures
        digits_value(s.take(i)) <= digits_value(s),
    decreases s.len() - i,
{
    if i < s.len() {
        lemma_digits_value_prefix(s, i + 1);
        assert(s.take(i + 1).drop_last() =~= s.take(i));
    }
    assert(s.take(s.len() as int) =~= s);
}

/// The decimal notation of `n` is made of digits and has the value `n`.
pub proof fn lemma_decimal_digits(n: nat)
    ensures
        all_digits(decimal(n)),
        digits_value(decimal(n)) == n,
        decimal(n).len() > 0,
        decimal(n)[0] != '+',
    decreases n,
{
    if n < 10 {
        lemma_digit_char(n);
        assert(decimal(n).drop_last() =~= Seq::<char>::empty());
        assert(digits_value(Seq::<char>::empty()) == 0);
        assert(decimal(n).last() == digit_char(n));
    } else {
        lemma_digit_char(n % 10);
        assert(n == (n / 10) * 10 + n % 10);
        lemma_decimal_digits(n / 10);
        lemma_digits_value_push(decimal(n / 10), digit_char(n % 10));
    }
}

/// Law: reading back the decimal notation of a number gives the number.
pub proof fn lemma_parse_decimal_roundtrip(n: nat)
    ensures
        parse_unsigned(decimal(n)) == Some(n),
{
    lemma_decimal_digits(n);
}

/// The one-character string for a digit value below ten.
fn digit_str(d: u64) -> (s: &'static str)
    requires
        d < 10,
    ensures
        s@ == seq![digit_char(d as nat)],
{
    match d {
        0 => {
            proof { reveal_strlit("0"); }
            "0"
        },
        1 => {
            proof { reveal_strlit("1"); }
            "1"
        },
        2 => {
            proof { reveal_strlit("2"); }
            "2"
        },
        3 => {
            proof { reveal_strlit("3"); }
            "3"
        },
        4 => {
            proof { reveal_strlit("4"); }
            "4"
        },
        5 => {
            proof { reveal_strlit("5"); }
            "5"
        },
        6 => {
            proof { reveal_strlit("6"); }
            "6"
        },
        7 => {
            proof { reveal_strlit("7"); }
            "7"
        },
        8 => {
            proof { reveal_strlit("8"); }
            "8"
        },
        _ => {
            proof { reveal_strlit("9"); }
            "9"
        },
    }
}

/// The decimal notation of `n`, as `n.to_string()` writes it.
pub fn decimal_string(n: u64) -> (s: String)
    ensures
        s@ == decimal(n as nat),
    decreases n,
{
    if n < 10 {
        String::from_str(digit_str(n))
    } else {
        let mut s = decimal_string(n / 10);
        s.append(digit_str(n % 10));
        s
    }
}

/// Parses `s` as std's `s.parse::<u64>()` does; `None` where that gives an error.
pub fn parse_u64(s: &str) -> (r: Option<u64>)
    ensures
        r == (match parse_bounded(s@, u64::MAX as nat) {
            Some(n) => Some(n as u64),
            None => None::<u64>,
        }),
{
    let len = s.unicode_len();
    let mut start: usize = 0;
    if len > 0 && s.get_char(0) == '+' {
        start = 1;
    }
    let ghost d = if s@.len() > 0 && s@[0] == '+' { s@.drop_first() } else { s@ };
    assert(parse_unsigned(s@) == (if d.len() > 0 && all_digits(d) { Some(digits_value(d)) } else { None }));
    assert(d =~= s@.subrange(start as int, s@.len() as int));
    if start >= len {
        return None;
    }
    let mut value: u64 = 0;
    let mut i: usize = start;
    while i < len
        invariant
            start <= i <= len,
            len == s@.len(),
            d =~= s@.subrange(start as int, len as int),
            parse_unsigned(s@) == (if d.len() > 0 && all_digits(d) { Some(digits_value(d)) } else { None }),
            all_digits(d.take(i - start)),
            value as nat == digits_value(d.take(i - start)),
        decreases len - i,
    {
        let c = s.get_char(i);
        assert(d[i - start] == c);
        assert(d.take(i - start + 1).drop_last() =~= d.take(i - start));
        if c < '0' || c > '9' {
            assert(!all_digits(d));
            assert(parse_unsigned(s@).is_none());
            return None;
        }
        let digit: u64 = (c as u64) - ('0' as u64);
        proof {
            lemma_digits_value_push(d.take(i - start), c);
            assert(d.take(i - start).push(c) =~= d.take(i - start + 1));
        }
        if value > (u64::MAX - digit) / 10 {
            proof {
                lemma_digits_value_prefix(d, i - start + 1);
                assert(value * 10 + digit > u64::MAX) by (nonlinear_arith)
                    requires value > (u64::MAX - digit) / 10, digit <= 9;
            }
            assert(all_digits(d) ==> digits_value(d) > u64::MAX);
            assert(parse_bounded(s@, u64::MAX as nat).is_none());
            return None;
        }
        assert(value * 10 + digit <= u64::MAX) by (nonlinear_arith)
            requires value <= (u64::MAX - digit) / 10, digit <= 9;
        value = value * 10 + digit;
        i = i + 1;
    }
    assert(d.take(len - start) =~= d);
    Some(value)
}

/// Parses `s` as std's `s.parse::<usize>()` does; `None` where that gives an error.
pub fn parse_usize(s: &str) -> (r: Option<usize>)
    ensures
        r == (match parse_bounded(s@, usize::MAX as nat) {
            Some(n) => Some(n as usize),
            None => None::<usize>,
        }),
{
    match parse_u64(s) {
        Some(n) => {
            if n as u128 <= usize::MAX as u128 {
                Some(n as usize)
            } else {
                None
            }
        },
        None => {
            proof {
                if let Some(n) = parse_unsigned(s@) {
                    assert(n > u64::MAX);
                }
            }
            None
        },
    }
}

/// The characters of `s`, one by one.
pub fn chars_of(s: &str) -> (v: Vec<char>)
    ensures
        v@ == s@,
{
    let len = s.unicode_len();
    let mut v: Vec<char> = Vec::new();
    let mut i: usize = 0;
    while i < len
        invariant
            i <= len,
            len == s@.len(),
            v@ == s@.take(i as int),
        decreases len - i,
    {
        v.push(s.get_char(i));
        assert(s@.take(i as int).push(s@[i as int]) =~= s@.take(i + 1));
        i = i + 1;
    }
    assert(s@.take(len as int) =~= s@);
    v
}

/// `needle` occurs in `hay` at position `i`.
pub open spec fn occurs_at(hay: Seq<char>, needle: Seq<char>, i: int) -> bool {
    0 <= i && i + needle.len() <= hay.len() && hay.subrange(i, i + needle.len()) == needle
}

/// `needle` occurs somewhere in `hay`, as std's `str::contains` asks.
pub open spec fn contains_seq(hay: Seq<char>, needle: Seq<char>) -> bool {
    exists|i: int| occurs_at(hay, needle, i)
}

/// `hay` begins with `needle`, as std's `str::starts_with` asks.
pub open spec fn starts_with_seq(hay: Seq<char>, needle: Seq<char>) -> bool {
    occurs_at(hay, needle, 0)
}

/// `hay` ends with `needle`, as std's `str::ends_with` asks.
pub open spec fn ends_with_seq(hay: Seq<char>, needle: Seq<char>) -> bool {
    occurs_at(hay, needle, hay.len() - needle.len())
}

/// Whether `needle` occurs in `hay` at `i`, for `i + needle.len() <= hay.len()`.
fn matches_at(hay: &Vec<char>, needle: &Vec<char>, i: usize) -> (r: bool)
    requires
        i + needle@.len() <= hay@.len(),
    ensures
        r == occurs_at(hay@, needle@, i as int),
{
    let nl = needle.len();
    let hl = hay.len();
    let mut j: usize = 0;
    while j < nl
        invariant
            j <= nl,
            nl == needle@.len(),
            hl == hay@.len(),
            i + nl <= hl,
            forall|k: int| 0 <= k < j ==> hay@[i + k] == needle@[k],
        decreases needle@.len() - j,
    {
        if hay[i + j] != needle[j] {
            assert(hay@.subrange(i as int, i + needle@.len())[j as int] != needle@[j as int]);
            return false;
        }
        j = j + 1;
    }
    assert(hay@.subrange(i as int, i + needle@.len()) =~= needle@);
    true
}

/// Whether `needle` occurs in `hay`, as `hay.contains(needle)` answers.
pub fn str_contains(hay: &str, needle: &str) -> (r: bool)
    ensures
        r == contains_seq(hay@, needle@),
{
    let h = chars_of(hay);
    let n = chars_of(needle);
    if n.len() > h.len() {
        return false;
    }
    let hl = h.len();
    let nl = n.len();
    let mut i: usize = 0;
    loop
        invariant
            nl <= hl,
            hl == h@.len(),
            nl == n@.len(),
            i <= hl - nl,
            h@ == hay@,
            n@ == needle@,
            forall|k: int| 0 <= k < i ==> !occurs_at(hay@, needle@, k),
        ensures
            forall|k: int| 0 <= k <= hl - nl ==> !occurs_at(hay@, needle@, k),
        decreases hl - nl - i,
    {
        if matches_at(&h, &n, i) {
            return true;
        }
        if i == hl - nl {
            break;
        }
        i = i + 1;
    }
    assert forall|k: int| !occurs_at(hay@, needle@, k) by {
        if 0 <= k && k + needle@.len() <= hay@.len() {
            assert(k <= hl - nl);
        }
    }
    false
}

/// Whether `hay` begins with `needle`, as `hay.starts_with(needle)` answers.
pub fn str_starts_with(hay: &str, needle: &str) -> (r: bool)
    ensures
        r == starts_with_seq(hay@, needle@),
{
    let h = chars_of(hay);
    let n = chars_of(needle);
    if n.len() > h.len() {
        return false;
    }
    matches_at(&h, &n, 0)
}

/// Whether `hay` ends with `needle`, as `hay.ends_with(needle)` answers.
pub fn str_ends_with(hay: &str, needle: &str) -> (r: bool)
    ensures
        r == ends_with_seq(hay@, needle@),
{
    let h = chars_of(hay);
    let n = chars_of(needle);
    if n.len() > h.len() {
        return false;
    }
    matches_at(&h, &n, h.len() - n.len())
}

/// A path separator `::` begins at position `i` of `s`.
pub open spec fn separator_at(s: Seq<char>, i: int) -> bool {
    0 <= i && i + 1 < s.len() && s[i] == ':' && s[i + 1] == ':'
}

/// The first position at or after `k` where a separator `::` begins.
pub open spec fn first_separator_from(s: Seq<char>, k: int) -> Option<int>
    decreases s.len() - k,
{
    if k < 0 || k + 1 >= s.len() {
        None
    } else if separator_at(s, k) {
        Some(k)
    } else {
        first_separator_from(s, k + 1)
    }
}

/// The pieces of `s` between the separators `::`, as `s.split("::")` gives them.
pub open spec fn split_path(s: Seq<char>) -> Seq<Seq<char>>
    decreases s.len(),
{
    match first_separator_from(s, 0) {
        Some(i) => if 0 <= i && i + 2 <= s.len() {
            seq![s.take(i)] + split_path(s.skip(i + 2))
        } else {
            seq![s]
        },
        None => seq![s],
    }
}

/// A separator found from `k` on lies at or after `k` and is a separator,
/// and none lies between `k` and it.
pub proof fn lemma_first_separator_from(s: Seq<char>, k: int)
    requires
        0 <= k,
    ensures
        match first_separator_from(s, k) {
            Some(i) => k <= i && separator_at(s, i)
                && forall|j: int| k <= j < i ==> !separator_at(s, j),
            None => forall|j: int| k <= j ==> !separator_at(s, j),
        },
    decreases s.len() - k,
{
    if k + 1 < s.len() && !separator_at(s, k) {
        lemma_first_separator_from(s, k + 1);
    }
}

/// `split_path` always gives at least one piece.
pub proof fn lemma_split_path_nonempty(s: Seq<char>)
    ensures
        split_path(s).len() >= 1,
    decreases s.len(),
{
    match first_separator_from(s, 0) {
        Some(i) => if 0 <= i && i + 2 <= s.len() {
            lemma_split_path_nonempty(s.skip(i + 2));
        },
        None => {},
    }
}

/// Where the first separator `::` of `s` begins, if there is one.
fn find_separator(s: &Vec<char>) -> (r: Option<usize>)
    ensures
        match first_separator_from(s@, 0) {
            Some(i) => r == Some(i as usize),
            None => r.is_none(),
        },
{
    let len = s.len();
    if len < 2 {
        return None;
    }
    let mut k: usize = 0;
    while k < len - 1
        invariant
            len >= 2,
            k <= len,
            len == s@.len(),
            first_separator_from(s@, 0) == first_separator_from(s@, k as int),
        decreases s@.len() - k,
    {
        if s[k] == ':' && s[k + 1] == ':' {
            return Some(k);
        }
        k = k + 1;
    }
    None
}

/// The string made of the characters `v[from..to]`.
fn string_of(v: &Vec<char>, from: usize, to: usize) -> (r: String)
    requires
        from <= to <= v@.len(),
    ensures
        r@ == v@.subrange(from as int, to as int),
    decreases to - from,
{
    if from == to {
        let r = String::new();
        assert(r@ =~= v@.subrange(from as int, to as int));
        r
    } else {
        let mut r = string_of(v, from, (to - 1) as usize);
        let c = char_str(v[to - 1]);
        r.append(c.as_str());
        assert(v@.subrange(from as int, to - 1) + seq![v@[to - 1]] =~= v@.subrange(from as int, to as int));
        r
    }
}

/// The one-character string holding `c`.
#[verifier::external_body]
fn char_str(c: char) -> (r: String)
    ensures
        r@ == seq![c],
{
    c.to_string()
}

/// Splits the characters `s` at each separator `::`.
fn split_chars(s: &Vec<char>, from: usize) -> (r: Vec<String>)
    requires
        from <= s@.len(),
    ensures
        r@.len() == split_path(s@.skip(from as int)).len(),
        forall|i: int| 0 <= i < r@.len() ==> #[trigger] r@[i]@ == split_path(s@.skip(from as int))[i],
    decreases s@.len() - from,
{
    let slen = s.len();
    let rest = slice_from(s, from);
    let found = find_separator(&rest);
    let ghost t = s@.skip(from as int);
    assert(rest@ == t);
    match found {
        None => {
            let mut r: Vec<String> = Vec::new();
            r.push(string_of(s, from, s.len()));
            assert(s@.subrange(from as int, s@.len() as int) =~= t);
            r
        },
        Some(i) => {
            proof { lemma_first_separator_from(t, 0); }
            assert(i + 2 <= t.len());
            let head = string_of(s, from, from + i);
            let mut tail = split_chars(s, from + i + 2);
            assert(s@.skip(from + i + 2) =~= t.skip(i + 2));
            assert(s@.subrange(from as int, from + i) =~= t.take(i as int));
            let mut r: Vec<String> = Vec::new();
            r.push(head);
            let ghost tv = tail@;
            r.append(&mut tail);
            assert forall|j: int| 0 <= j < r@.len() implies #[trigger] r@[j]@ == split_path(t)[j] by {
                if j > 0 {
                    assert(r@[j] == tv[j - 1]);
                }
            }
            r
        },
    }
}

/// The characters `s[from..]`.
fn slice_from(s: &Vec<char>, from: usize) -> (r: Vec<char>)
    requires
        from <= s@.len(),
    ensures
        r@ == s@.skip(from as int),
{
    let mut r: Vec<char> = Vec::new();
    let mut i = from;
    while i < s.len()
        invariant
            from <= i <= s@.len(),
            r@ == s@.subrange(from as int, i as int),
        decreases s@.len() - i,
    {
        r.push(s[i]);
        assert(s@.subrange(from as int, i as int).push(s@[i as int]) =~= s@.subrange(from as int, i + 1));
        i = i + 1;
    }
    assert(s@.subrange(from as int, s@.len() as int) =~= s@.skip(from as int));
    r
}

/// The pieces of `s` between the separators `::`, as `s.split("::")` gives them.
pub fn split_path_str(s: &str) -> (r: Vec<String>)
    ensures
        r@.len() == split_path(s@).len(),
        forall|i: int| 0 <= i < r@.len() ==> #[trigger] r@[i]@ == split_path(s@)[i],
{
    let v = chars_of(s);
    assert(v@.skip(0) =~= v@);
    split_chars(&v, 0)
}

/// Whether `a` and `b` hold the same characters.
pub fn str_equal(a: &str, b: &str) -> (r: bool)
    ensures
        r == (a@ == b@),
{
    let x = chars_of(a);
    let y = chars_of(b);
    if x.len() != y.len() {
        return false;
    }
    let r = matches_at(&x, &y, 0);
    assert(x@.subrange(0, y@.len() as int) =~= x@);
    r
}

/// The view of an optional string.
pub open spec fn opt_view(o: Option<String>) -> Option<Seq<char>> {
    match o {
        Some(s) => Some(s@),
        None => None,
    }
}

/// A copy of an optional string.
pub fn clone_opt(o: &Option<String>) -> (r: Option<String>)
    ensures
        opt_view(r) == opt_view(*o),
{
    match o {
        Some(s) => Some(s.clone()),
        None => None,
    }
}

/// Where `c` first occurs in `s` at or after position `k`.
pub open spec fn first_char_from(s: Seq<char>, c: char, k: int) -> Option<int>
    decreases s.len() - k,
{
    if k < 0 || k >= s.len() {
        None
    } else if s[k] == c {
        Some(k)
    } else {
        first_char_from(s, c, k + 1)
    }
}

/// `first_char_from` finds the first occurrence at or after `k`, and only that.
pub proof fn lemma_first_char_from(s: Seq<char>, c: char, k: int)
    requires
        0 <= k,
    ensures
        match first_char_from(s, c, k) {
            Some(i) => k <= i < s.len() && s[i] == c && forall|j: int| k <= j < i ==> s[j] != c,
            None => forall|j: int| k <= j < s.len() ==> s[j] != c,
        },
    decreases s.len() - k,
{
    if k < s.len() && s[k] != c {
        lemma_first_char_from(s, c, k + 1);
    }
}

/// Where `c` first occurs in `s`, if it does.
pub fn find_char(s: &str, c: char) -> (r: Option<usize>)
    ensures
        match first_char_from(s@, c, 0) {
            Some(i) => r == Some(i as usize),
            None => r is None,
        },
{
    let len = s.unicode_len();
    let mut k: usize = 0;
    while k < len
        invariant
            k <= len,
            len == s@.len(),
            first_char_from(s@, c, 0) == first_char_from(s@, c, k as int),
        decreases len - k,
    {
        if s.get_char(k) == c {
            return Some(k);
        }
        k = k + 1;
    }
    None
}

/// The string holding the characters `s[from..to]`.
pub fn substring(s: &str, from: usize, to: usize) -> (r: String)
    requires
        from <= to <= s@.len(),
    ensures
        r@ == s@.subrange(from as int, to as int),
{
    String::from_str(s.substring_char(from, to))
}

/// The views of the strings `v`.
pub open spec fn views(v: Seq<String>) -> Seq<Seq<char>> {
    v.map_values(|s: String| s@)
}

/// The pieces joined with `sep` between each two, as `join` on a slice of strings gives them.
pub open spec fn join(pieces: Seq<Seq<char>>, sep: Seq<char>) -> Seq<char>
    decreases pieces.len(),
{
    if pieces.len() == 0 {
        Seq::empty()
    } else if pieces.len() == 1 {
        pieces[0]
    } else {
        join(pieces.drop_last(), sep) + sep + pieces.last()
    }
}

/// The strings `pieces` joined with `sep` between each two.
pub fn join_strings(pieces: &Vec<String>, sep: &str) -> (r: String)
    ensures
        r@ == join(views(pieces@), sep@),
{
    let len = pieces.len();
    let mut out = String::new();
    let mut i: usize = 0;
    while i < len
        invariant
            i <= len,
            len == pieces@.len(),
            out@ == join(views(pieces@).take(i as int), sep@),
        decreases len - i,
    {
        let ghost before = views(pieces@).take(i as int);
        let ghost after = views(pieces@).take(i + 1);
        assert(after.drop_last() =~= before);
        assert(after.last() == pieces@[i as int]@);
        if i > 0 {
            out.append(sep);
        } else {
            assert(out@ =~= Seq::<char>::empty());
        }
        out.append(pieces[i].as_str());
        proof {
            if i == 0 {
                assert(out@ =~= after[0]);
            }
        }
        i = i + 1;
    }
    assert(views(pieces@).take(len as int) =~= views(pieces@));
    out
}

} // verus!

//! Character-level text helpers shared by the solution and project parsers:
//! string comparison and search, decimal integer and boolean parsing, and
//! splitting a value list on a separator.
use vstd::prelude::*;

verus! {

/// Why a decimal integer could not be read.
#[derive(Clone, Copy, Debug, PartialEq, Eq, Structural)]
pub enum IntErrorKind {
    /// The text is empty.
    Empty,
    /// A character that is not a decimal digit, or a sign alone.
    InvalidDigit,
    /// The value is larger than the target type holds.
    PosOverflow,
    /// The value is smaller than the target type holds.
    NegOverflow,
}

pub open spec fn is_decimal_digit(c: char) -> bool {
    '0' <= c && c <= '9'
}

pub open spec fn digit_value(c: char) -> int {
    c as int - '0' as int
}

/// Reads the digits `ds` from the left, failing at the first character that
/// is not a digit or at the first step whose value leaves `[min, max]`.
pub open spec fn fold_digits(ds: Seq<char>, negative: bool, min: int, max: int) -> Result<
    int,
    IntErrorKind,
>
    decreases ds.len(),
{
    if ds.len() == 0 {
        Ok(0)
    } else {
        match fold_digits(ds.drop_last(), negative, min, max) {
            Err(e) => Err(e),
            Ok(v) => {
                if !is_decimal_digit(ds.last()) {
                    Err(IntErrorKind::InvalidDigit)
                } else {
                    let w: int = if negative {
                        v * 10 - digit_value(ds.last())
                    } else {
                        v * 10 + digit_value(ds.last())
                    };
                    if w > max {
                        Err(IntErrorKind::PosOverflow)
                    } else if w < min {
                        Err(IntErrorKind::NegOverflow)
                    } else {
                        Ok(w)
                    }
                }
            },
        }
    }
}

/// The decimal reading of `s` into an integer type whose values are `[min, max]`:
/// an optional `+` (or, for a signed type, `-`) followed by digits only.
pub open spec fn spec_parse_int(s: Seq<char>, signed: bool, min: int, max: int) -> Result<
    int,
    IntErrorKind,
> {
    if s.len() == 0 {
        Err(IntErrorKind::Empty)
    } else if (s[0] == '+' || s[0] == '-') && s.len() == 1 {
        Err(IntErrorKind::InvalidDigit)
    } else if s[0] == '+' {
        fold_digits(s.skip(1), false, min, max)
    } else if s[0] == '-' && signed {
        fold_digits(s.skip(1), true, min, max)
    } else {
        fold_digits(s, false, min, max)
    }
}

pub open spec fn spec_parse_u8(s: Seq<char>) -> Result<u8, IntErrorKind> {
    match spec_parse_int(s, false, 0, 255) {
        Ok(v) => Ok(v as u8),
        Err(e) => Err(e),
    }
}

pub open spec fn spec_parse_i8(s: Seq<char>) -> Result<i8, IntErrorKind> {
    match spec_parse_int(s, true, -128, 127) {
        Ok(v) => Ok(v as i8),
        Err(e) => Err(e),
    }
}

pub open spec fn spec_parse_u16(s: Seq<char>) -> Result<u16, IntErrorKind> {
    match spec_parse_int(s, false, 0, 65535) {
        Ok(v) => Ok(v as u16),
        Err(e) => Err(e),
    }
}

/// The boolean spellings that project files use.
pub open spec fn spec_parse_bool(s: Seq<char>) -> Option<bool> {
    if s == "1"@ || s == "TRUE"@ || s == "true"@ {
        Some(true)
    } else if s == "0"@ || s == "FALSE"@ || s == "false"@ {
        Some(false)
    } else {
        None
    }
}

/// `s` cut at every `sep`: the pieces between separators, empty ones included.
pub open spec fn split_on(s: Seq<char>, sep: char) -> Seq<Seq<char>>
    decreases s.len(),
{
    if s.len() == 0 {
        seq![Seq::<char>::empty()]
    } else {
        let prev = split_on(s.drop_last(), sep);
        if s.last() == sep {
            prev.push(Seq::<char>::empty())
        } else {
            prev.update(prev.len() - 1, prev.last().push(s.last()))
        }
    }
}

pub open spec fn is_nonempty(p: Seq<char>) -> bool {
    p.len() > 0
}

/// The pieces of `ps` that are not empty, in order.
pub open spec fn nonempty_pieces(ps: Seq<Seq<char>>) -> Seq<Seq<char>> {
    ps.filter(|p: Seq<char>| is_nonempty(p))
}

/// The non-empty pieces of `s` between separators `sep`, in order.
pub open spec fn spec_split_nonempty(s: Seq<char>, sep: char) -> Seq<Seq<char>> {
    nonempty_pieces(split_on(s, sep))
}

/// `items` written one after another with `sep` between neighbours.
pub open spec fn join_with(items: Seq<Seq<char>>, sep: char) -> Seq<char>
    decreases items.len(),
{
    if items.len() == 0 {
        Seq::empty()
    } else if items.len() == 1 {
        items[0]
    } else {
        join_with(items.drop_last(), sep) + seq![sep] + items.last()
    }
}

/// `needle` occurs in `hay` at some position.
pub open spec fn spec_contains(hay: Seq<char>, needle: Seq<char>) -> bool {
    exists|k: int|
        0 <= k && k + needle.len() <= hay.len() && #[trigger] hay.subrange(k, k + needle.len())
            == needle
}

/// Once reading a prefix of the digits fails, reading all of them fails the same way.
pub proof fn lemma_fold_digits_prefix_err(ds: Seq<char>, m: int, negative: bool, min: int, max: int)
    requires
        0 <= m <= ds.len(),
        fold_digits(ds.take(m), negative, min, max) is Err,
    ensures
        fold_digits(ds, negative, min, max) == fold_digits(ds.take(m), negative, min, max),
    decreases ds.len() - m,
{
    if m < ds.len() {
        assert(ds.take(m + 1).drop_last() =~= ds.take(m));
        lemma_fold_digits_prefix_err(ds, m + 1, negative, min, max);
    } else {
        assert(ds.take(m) =~= ds);
    }
}

pub proof fn lemma_split_on_nonempty(s: Seq<char>, sep: char)
    ensures
        split_on(s, sep).len() >= 1,
    decreases s.len(),
{
    if s.len() > 0 {
        lemma_split_on_nonempty(s.drop_last(), sep);
    }
}

proof fn lemma_split_on_free(s: Seq<char>, sep: char)
    requires
        !s.contains(sep),
    ensures
        split_on(s, sep) == seq![s],
    decreases s.len(),
{
    if s.len() > 0 {
        assert forall|k: int| 0 <= k < s.drop_last().len() implies s.drop_last()[k] != sep by {
            assert(s.drop_last()[k] == s[k]);
        }
        lemma_split_on_free(s.drop_last(), sep);
        assert(s[s.len() - 1] == s.last());
        assert(s.drop_last().push(s.last()) =~= s);
        assert(seq![s.drop_last()].update(0, s) =~= seq![s]);
    } else {
        assert(s =~= Seq::<char>::empty());
    }
}

proof fn lemma_split_on_concat(a: Seq<char>, b: Seq<char>, sep: char)
    ensures
        split_on(a + seq![sep] + b, sep) == split_on(a, sep) + split_on(b, sep),
    decreases b.len(),
{
    let s = a + seq![sep] + b;
    if b.len() == 0 {
        assert(s.drop_last() =~= a);
        assert(split_on(a, sep).push(Seq::<char>::empty()) =~= split_on(a, sep) + split_on(b, sep));
    } else {
        assert(s.drop_last() =~= a + seq![sep] + b.drop_last());
        lemma_split_on_concat(a, b.drop_last(), sep);
        lemma_split_on_nonempty(b.drop_last(), sep);
        lemma_split_on_nonempty(a, sep);
        let pa = split_on(a, sep);
        let pb = split_on(b.drop_last(), sep);
        assert(s.last() == b.last());
        if b.last() == sep {
            assert((pa + pb).push(Seq::<char>::empty()) =~= pa + pb.push(Seq::<char>::empty()));
        } else {
            assert((pa + pb).update((pa + pb).len() - 1, (pa + pb).last().push(b.last())) =~= pa
                + pb.update(pb.len() - 1, pb.last().push(b.last())));
        }
    }
}

pub proof fn lemma_split_join(items: Seq<Seq<char>>, sep: char)
    requires
        items.len() >= 1,
        forall|k: int| 0 <= k < items.len() ==> !(#[trigger] items[k]).contains(sep),
    ensures
        split_on(join_with(items, sep), sep) == items,
    decreases items.len(),
{
    if items.len() == 1 {
        lemma_split_on_free(items[0], sep);
        assert(seq![items[0]] =~= items);
    } else {
        let init = items.drop_last();
        assert forall|k: int| 0 <= k < init.len() implies !(#[trigger] init[k]).contains(sep) by {
            assert(init[k] == items[k]);
        }
        lemma_split_join(init, sep);
        lemma_split_on_concat(join_with(init, sep), items.last(), sep);
        lemma_split_on_free(items.last(), sep);
        assert(init + seq![items.last()] =~= items);
    }
}

pub proof fn lemma_split_on_pieces_free(s: Seq<char>, sep: char)
    ensures
        forall|k: int|
            0 <= k < split_on(s, sep).len() ==> !(#[trigger] split_on(s, sep)[k]).contains(sep),
    decreases s.len(),
{
    if s.len() > 0 {
        lemma_split_on_pieces_free(s.drop_last(), sep);
        lemma_split_on_nonempty(s.drop_last(), sep);
        let prev = split_on(s.drop_last(), sep);
        if s.last() != sep {
            let l = prev.last().push(s.last());
            assert(!prev[prev.len() - 1].contains(sep));
            assert forall|j: int| 0 <= j < l.len() implies l[j] != sep by {
                if j < l.len() - 1 {
                    assert(l[j] == prev.last()[j]);
                }
            }
        }
    }
}

proof fn lemma_nonempty_pieces_keep_all(ps: Seq<Seq<char>>)
    requires
        forall|k: int| 0 <= k < ps.len() ==> is_nonempty(#[trigger] ps[k]),
    ensures
        nonempty_pieces(ps) == ps,
    decreases ps.len(),
{
    reveal_with_fuel(Seq::filter, 1);
    if ps.len() > 0 {
        let init = ps.drop_last();
        assert forall|k: int| 0 <= k < init.len() implies is_nonempty(#[trigger] init[k]) by {
            assert(init[k] == ps[k]);
        }
        lemma_nonempty_pieces_keep_all(init);
        assert(is_nonempty(ps[ps.len() - 1]));
        assert(init.push(ps.last()) =~= ps);
    }
}

/// Every element that a filter keeps is an element of the sequence filtered.
pub proof fn lemma_filter_from<A>(ps: Seq<A>, pred: spec_fn(A) -> bool)
    ensures
        forall|k: int| 0 <= k < ps.filter(pred).len() ==> ps.contains(#[trigger] ps.filter(pred)[k]),
    decreases ps.len(),
{
    reveal_with_fuel(Seq::filter, 1);
    if ps.len() > 0 {
        let init = ps.drop_last();
        lemma_filter_from(init, pred);
        let out = ps.filter(pred);
        assert forall|k: int| 0 <= k < out.len() implies ps.contains(#[trigger] out[k]) by {
            if k < init.filter(pred).len() {
                assert(out[k] == init.filter(pred)[k]);
                let j = choose|j: int| 0 <= j < init.len() && init[j] == out[k];
                assert(ps[j] == init[j]);
            } else {
                assert(out[k] == ps[ps.len() - 1]);
            }
        }
    }
}

/// Every piece that splitting keeps is non-empty and holds no separator.
pub proof fn law_split_nonempty_pieces(s: Seq<char>, sep: char)
    ensures
        forall|k: int|
            0 <= k < spec_split_nonempty(s, sep).len() ==> {
                let p = #[trigger] spec_split_nonempty(s, sep)[k];
                p.len() > 0 && !p.contains(sep)
            },
{
    let ps = split_on(s, sep);
    lemma_split_on_pieces_free(s, sep);
    lemma_filter_from(ps, |p: Seq<char>| is_nonempty(p));
    assert forall|k: int| 0 <= k < spec_split_nonempty(s, sep).len() implies {
        let p = #[trigger] spec_split_nonempty(s, sep)[k];
        p.len() > 0 && !p.contains(sep)
    } by {
        let p = spec_split_nonempty(s, sep)[k];
        ps.lemma_filter_pred(|p: Seq<char>| is_nonempty(p), k);
        let j = choose|j: int| 0 <= j < ps.len() && ps[j] == p;
        assert(!ps[j].contains(sep));
    }
}

/// Splitting non-empty items written with the separator between them gives
/// the items back.
pub proof fn law_split_nonempty_join(items: Seq<Seq<char>>, sep: char)
    requires
        forall|k: int| 0 <= k < items.len() ==> (#[trigger] items[k]).len() > 0 && !items[k].contains(sep),
    ensures
        spec_split_nonempty(join_with(items, sep), sep) == items,
{
    if items.len() == 0 {
        reveal_with_fuel(Seq::filter, 2);
        assert(nonempty_pieces(seq![Seq::<char>::empty()]) =~= items);
    } else {
        lemma_split_join(items, sep);
        lemma_nonempty_pieces_keep_all(items);
    }
}

/// The decimal digit for `d` in `0..10`.
pub open spec fn digit_char(d: int) -> char {
    if d == 0 {
        '0'
    } else if d == 1 {
        '1'
    } else if d == 2 {
        '2'
    } else if d == 3 {
        '3'
    } else if d == 4 {
        '4'
    } else if d == 5 {
        '5'
    } else if d == 6 {
        '6'
    } else if d == 7 {
        '7'
    } else if d == 8 {
        '8'
    } else {
        '9'
    }
}

/// The decimal digits of `n`, without leading zeros.
pub open spec fn decimal_digits(n: nat) -> Seq<char>
    decreases n,
{
    if n < 10 {
        seq![digit_char(n as int)]
    } else {
        decimal_digits(n / 10).push(digit_char((n % 10) as int))
    }
}

/// `v` written in decimal, with a `-` before a negative value.
pub open spec fn decimal(v: int) -> Seq<char> {
    if v < 0 {
        seq!['-'] + decimal_digits((-v) as nat)
    } else {
        decimal_digits(v as nat)
    }
}

fn digit_text(d: u8) -> (r: &'static str)
    requires
        d < 10,
    ensures
        r@ == seq![digit_char(d as int)],
{
    proof {
        reveal_strlit("0");
        reveal_strlit("1");
        reveal_strlit("2");
        reveal_strlit("3");
        reveal_strlit("4");
        reveal_strlit("5");
        reveal_strlit("6");
        reveal_strlit("7");
        reveal_strlit("8");
        reveal_strlit("9");
    }
    if d == 0 {
        "0"
    } else if d == 1 {
        "1"
    } else if d == 2 {
        "2"
    } else if d == 3 {
        "3"
    } else if d == 4 {
        "4"
    } else if d == 5 {
        "5"
    } else if d == 6 {
        "6"
    } else if d == 7 {
        "7"
    } else if d == 8 {
        "8"
    } else {
        "9"
    }
}

/// `v` written in decimal.
pub fn decimal_i8(v: i8) -> (r: String)
    ensures
        r@ == decimal(v as int),
{
    let n: u8 = if v < 0 {
        (-(v as i16)) as u8
    } else {
        v as u8
    };
    let mut out = String::new();
    if v < 0 {
        out.append("-");
        proof {
            reveal_strlit("-");
        }
    }
    let ghost sign = out@;
    assert(n / 10 / 10 == n / 100);
    if n >= 100 {
        out.append(digit_text(n / 100));
    }
    if n >= 10 {
        out.append(digit_text((n / 10) % 10));
    }
    out.append(digit_text(n % 10));
    proof {
        let m = n as nat;
        if m >= 100 {
            assert(decimal_digits(m / 100) == seq![digit_char((m / 100) as int)]);
            assert(decimal_digits(m / 10) == decimal_digits(m / 10 / 10).push(digit_char(((m / 10) % 10) as int)));
        } else if m >= 10 {
            assert(decimal_digits(m / 10) == seq![digit_char((m / 10) as int)]);
        }
        assert(out@ =~= sign + decimal_digits(m));
        assert(Seq::<char>::empty() + decimal_digits(m) =~= decimal_digits(m));
    }
    out
}

/// The characters of `s`, in order.
pub fn chars_of(s: &str) -> (r: Vec<char>)
    ensures
        r@ == s@,
{
    let mut v: Vec<char> = Vec::new();
    for c in it: s.chars()
        invariant
            v@ == it.seq().take(it.index()),
    {
        v.push(c);
    }
    proof {
        broadcast use vstd::string::group_string_axioms;

    }
    v
}

/// The characters of `s` from position `from` up to `to`, as a new string.
pub fn substring(s: &str, from: usize, to: usize) -> (r: String)
    requires
        from <= to <= s@.len(),
    ensures
        r@ == s@.subrange(from as int, to as int),
{
    s.substring_char(from, to).to_owned()
}

/// Whether two character sequences are equal.
pub fn chars_eq(a: &[char], b: &[char]) -> (r: bool)
    ensures
        r == (a@ == b@),
{
    if a.len() != b.len() {
        return false;
    }
    let mut i: usize = 0;
    while i < a.len()
        invariant
            a@.len() == b@.len(),
            i <= a@.len(),
            forall|k: int| 0 <= k < i ==> a@[k] == b@[k],
        decreases a@.len() - i,
    {
        if a[i] != b[i] {
            return false;
        }
        i = i + 1;
    }
    assert(a@ =~= b@);
    true
}

/// Whether two strings hold the same characters.
pub fn str_eq(a: &str, b: &str) -> (r: bool)
    ensures
        r == (a@ == b@),
{
    let ca = chars_of(a);
    let cb = chars_of(b);
    chars_eq(ca.as_slice(), cb.as_slice())
}

/// Whether `hay` holds `needle` at position `at`.
pub fn chars_match_at(hay: &[char], needle: &[char], at: usize) -> (r: bool)
    requires
        at <= hay@.len(),
    ensures
        r == (at + needle@.len() <= hay@.len() && hay@.subrange(
            at as int,
            at + needle@.len(),
        ) == needle@),
{
    let hl = hay.len();
    if needle.len() > hl - at {
        return false;
    }
    let mut i: usize = 0;
    while i < needle.len()
        invariant
            hl == hay@.len(),
            at + needle@.len() <= hay@.len(),
            i <= needle@.len(),
            forall|k: int| 0 <= k < i ==> hay@[at + k] == needle@[k],
        decreases needle@.len() - i,
    {
        if hay[at + i] != needle[i] {
            assert(hay@.subrange(at as int, at + needle@.len())[i as int] != needle@[i as int]);
            return false;
        }
        i = i + 1;
    }
    assert(hay@.subrange(at as int, at + needle@.len()) =~= needle@);
    true
}

/// Whether `needle` occurs anywhere in `hay`.
pub fn str_contains(hay: &str, needle: &str) -> (r: bool)
    ensures
        r == spec_contains(hay@, needle@),
{
    let h = chars_of(hay);
    let n = chars_of(needle);
    if n.len() == 0 {
        assert(hay@.subrange(0int, 0int + needle@.len()) =~= needle@);
        return true;
    }
    let mut at: usize = 0;
    while at < h.len()
        invariant
            h@ == hay@,
            n@ == needle@,
            forall|k: int|
                0 <= k < at ==> !(k + n@.len() <= h@.len() && #[trigger] h@.subrange(
                    k,
                    k + n@.len(),
                ) == n@),
        decreases h@.len() - at,
    {
        if chars_match_at(h.as_slice(), n.as_slice(), at) {
            return true;
        }
        at = at + 1;
    }
    assert forall|k: int|
        0 <= k && k + needle@.len() <= hay@.len() implies #[trigger] hay@.subrange(
        k,
        k + needle@.len(),
    ) != needle@ by {
        assert(k < at);
    }
    false
}

/// Reads `s` as a decimal integer of a type whose values are `[min, max]`.
pub fn parse_int(s: &str, signed: bool, min: i64, max: i64) -> (r: Result<i64, IntErrorKind>)
    ensures
        match r {
            Ok(v) => spec_parse_int(s@, signed, min as int, max as int) == Ok::<int, IntErrorKind>(
                v as int,
            ),
            Err(e) => spec_parse_int(s@, signed, min as int, max as int) == Err::<int, IntErrorKind>(
                e,
            ),
        },
{
    let c = chars_of(s);
    if c.len() == 0 {
        return Err(IntErrorKind::Empty);
    }
    if (c[0] == '+' || c[0] == '-') && c.len() == 1 {
        return Err(IntErrorKind::InvalidDigit);
    }
    let (start, negative): (usize, bool) = if c[0] == '+' {
        (1, false)
    } else if c[0] == '-' && signed {
        (1, true)
    } else {
        (0, false)
    };
    let ghost ds = c@.skip(start as int);
    assert(c@.skip(0) =~= c@);
    assert(spec_parse_int(s@, signed, min as int, max as int) == fold_digits(
        ds,
        negative,
        min as int,
        max as int,
    ));
    assert(ds.take(0) =~= Seq::<char>::empty());
    let mut v: i128 = 0;
    let mut i: usize = start;
    while i < c.len()
        invariant
            start <= i <= c@.len(),
            ds == c@.skip(start as int),
            i64::MIN <= v <= i64::MAX,
            fold_digits(ds.take(i - start), negative, min as int, max as int) == Ok::<
                int,
                IntErrorKind,
            >(v as int),
            spec_parse_int(s@, signed, min as int, max as int) == fold_digits(
                ds,
                negative,
                min as int,
                max as int,
            ),
            ds.len() == c@.len() - start,
        decreases c@.len() - i,
    {
        let ch = c[i];
        assert(ds.take(i + 1 - start).drop_last() =~= ds.take(i - start));
        assert(ds.take(i + 1 - start).last() == ch);
        if !('0' <= ch && ch <= '9') {
            proof {
                lemma_fold_digits_prefix_err(ds, i + 1 - start, negative, min as int, max as int);
            }
            return Err(IntErrorKind::InvalidDigit);
        }
        let d: i128 = (ch as u32 - '0' as u32) as i128;
        let w: i128 = if negative {
            v * 10 - d
        } else {
            v * 10 + d
        };
        if w > max as i128 {
            proof {
                lemma_fold_digits_prefix_err(ds, i + 1 - start, negative, min as int, max as int);
            }
            return Err(IntErrorKind::PosOverflow);
        }
        if w < min as i128 {
            proof {
                lemma_fold_digits_prefix_err(ds, i + 1 - start, negative, min as int, max as int);
            }
            return Err(IntErrorKind::NegOverflow);
        }
        v = w;
        i = i + 1;
    }
    assert(ds.take(i - start) =~= ds);
    assert(c@.skip(0) =~= c@);
    Ok(v as i64)
}

/// Reads `s` as a `u8` in decimal.
pub fn parse_u8(s: &str) -> (r: Result<u8, IntErrorKind>)
    ensures
        r == spec_parse_u8(s@),
{
    match parse_int(s, false, 0, 255) {
        Ok(v) => Ok(v as u8),
        Err(e) => Err(e),
    }
}

/// Reads `s` as an `i8` in decimal.
pub fn parse_i8(s: &str) -> (r: Result<i8, IntErrorKind>)
    ensures
        r == spec_parse_i8(s@),
{
    match parse_int(s, true, -128, 127) {
        Ok(v) => Ok(v as i8),
        Err(e) => Err(e),
    }
}

/// Reads `s` as a `u16` in decimal.
pub fn parse_u16(s: &str) -> (r: Result<u16, IntErrorKind>)
    ensures
        r == spec_parse_u16(s@),
{
    match parse_int(s, false, 0, 65535) {
        Ok(v) => Ok(v as u16),
        Err(e) => Err(e),
    }
}

/// Reads one of the boolean spellings of project files.
pub fn bool_value(s: &str) -> (r: Option<bool>)
    ensures
        r == spec_parse_bool(s@),
{
    if str_eq(s, "1") || str_eq(s, "TRUE") || str_eq(s, "true") {
        Some(true)
    } else if str_eq(s, "0") || str_eq(s, "FALSE") || str_eq(s, "false") {
        Some(false)
    } else {
        None
    }
}

/// The non-empty pieces of `s` between occurrences of `sep`, in order.
pub fn split_nonempty(s: &str, sep: char) -> (r: Vec<String>)
    ensures
        r.deep_view() == spec_split_nonempty(s@, sep),
{
    let c = chars_of(s);
    let mut res: Vec<String> = Vec::new();
    let ghost mut done: Seq<Seq<char>> = Seq::empty();
    let mut start: usize = 0;
    let mut k: usize = 0;
    proof {
        assert(c@.take(0) =~= Seq::<char>::empty());
        assert(c@.subrange(0, 0) =~= Seq::<char>::empty());
        assert(done.push(Seq::<char>::empty()) =~= seq![Seq::<char>::empty()]);
        reveal_with_fuel(Seq::filter, 1);
        assert(res.deep_view() =~= nonempty_pieces(done));
    }
    while k < c.len()
        invariant
            c@ == s@,
            start <= k <= c@.len(),
            split_on(c@.take(k as int), sep) == done.push(c@.subrange(start as int, k as int)),
            res.deep_view() == nonempty_pieces(done),
        decreases c@.len() - k,
    {
        let ghost cur = c@.subrange(start as int, k as int);
        assert(c@.take(k + 1).drop_last() =~= c@.take(k as int));
        assert(c@.take(k + 1).last() == c@[k as int]);
        if c[k] == sep {
            let ghost old_done = done;
            if start < k {
                let piece = substring(s, start, k);
                let ghost old_res = res.deep_view();
                res.push(piece);
                assert(res.deep_view() =~= old_res.push(cur));
            }
            proof {
                done = done.push(cur);
                reveal_with_fuel(Seq::filter, 1);
                assert(done.drop_last() =~= old_done);
                assert(c@.subrange((k + 1) as int, (k + 1) as int) =~= Seq::<char>::empty());
            }
            start = k + 1;
        } else {
            proof {
                assert(c@.subrange(start as int, k + 1) =~= cur.push(c@[k as int]));
                assert(done.push(cur).update(done.len() as int, cur.push(c@[k as int]))
                    =~= done.push(cur.push(c@[k as int])));
            }
        }
        k = k + 1;
    }
    let ghost cur = c@.subrange(start as int, k as int);
    let ghost old_res = res.deep_view();
    if start < k {
        let piece = substring(s, start, k);
        res.push(piece);
        assert(res.deep_view() =~= old_res.push(cur));
    }
    proof {
        assert(c@.take(k as int) =~= c@);
        reveal_with_fuel(Seq::filter, 1);
        assert(done.push(cur).drop_last() =~= done);
    }
    res
}

} // verus!

//! Text primitives shared by every module: number rendering and parsing, comparison, padding and
//! splitting. A text is modelled by its sequence of characters.

use vstd::prelude::*;

verus! {

/// `String::push`: appends one character to the end of the string.
pub assume_specification[ String::push ](s: &mut String, c: char)
    ensures
        final(s)@ == old(s)@.push(c),
;

/// `str`'s equality: two slices are equal exactly when they hold the same characters.
pub assume_specification[ <str as PartialEq<str>>::eq ](a: &str, b: &str) -> (r: bool)
    ensures
        r == (a@ == b@),
;

/// The decimal digit that stands for `d`.
pub open spec fn digit_char(d: nat) -> char {
    if d == 0 {
        '0'
    } else if d == 1 {
        '1'
    } else if d == 2 {
        '2'
    } else if d == 3 {
        '3'
    } else if d == 4 {
        '4'
    } else if d == 5 {
        '5'
    } else if d == 6 {
        '6'
    } else if d == 7 {
        '7'
    } else if d == 8 {
        '8'
    } else {
        '9'
    }
}

/// The lower-case hexadecimal digit that stands for `d`.
pub open spec fn hex_char(d: nat) -> char {
    if d < 10 {
        digit_char(d)
    } else if d == 10 {
        'a'
    } else if d == 11 {
        'b'
    } else if d == 12 {
        'c'
    } else if d == 13 {
        'd'
    } else if d == 14 {
        'e'
    } else {
        'f'
    }
}

/// Decimal rendering of `n`, without leading zeros.
pub open spec fn decimal(n: nat) -> Seq<char>
    decreases n,
{
    if n < 10 {
        seq![digit_char(n)]
    } else {
        decimal(n / 10).push(digit_char(n % 10))
    }
}

/// Decimal rendering of an integer that may be negative.
pub open spec fn signed_decimal(n: int) -> Seq<char> {
    if n < 0 {
        seq!['-'] + decimal((-n) as nat)
    } else {
        decimal(n as nat)
    }
}

/// The `width` low decimal digits of `n`, with leading zeros.
pub open spec fn zero_padded(n: nat, width: nat) -> Seq<char>
    decreases width,
{
    if width == 0 {
        seq![]
    } else {
        zero_padded(n / 10, (width - 1) as nat).push(digit_char(n % 10))
    }
}

/// The `width` low hexadecimal digits of `n`, with leading zeros.
pub open spec fn hex_padded(n: nat, width: nat) -> Seq<char>
    decreases width,
{
    if width == 0 {
        seq![]
    } else {
        hex_padded(n / 16, (width - 1) as nat).push(hex_char(n % 16))
    }
}

/// `s` followed by as many spaces as it takes to be at least `width` characters wide.
pub open spec fn padded_right(s: Seq<char>, width: nat) -> Seq<char> {
    s + Seq::new(
        if s.len() < width {
            (width - s.len()) as nat
        } else {
            0
        },
        |i: int| ' ',
    )
}

/// The value of a decimal digit.
pub open spec fn digit_value(c: char) -> nat {
    (c as int - '0' as int) as nat
}

pub open spec fn is_digit(c: char) -> bool {
    '0' <= c <= '9'
}

pub open spec fn all_digits(s: Seq<char>) -> bool {
    forall|i: int| 0 <= i < s.len() ==> is_digit(#[trigger] s[i])
}

/// The number that a sequence of decimal digits denotes.
pub open spec fn digits_value(s: Seq<char>) -> nat
    decreases s.len(),
{
    if s.len() == 0 {
        0
    } else {
        digits_value(s.drop_last()) * 10 + digit_value(s.last())
    }
}

/// The number that a text denotes: an optional plus sign, then at least one digit.
pub open spec fn parse_unsigned(s: Seq<char>) -> Option<nat> {
    let body = if s.len() > 0 && s[0] == '+' {
        s.skip(1)
    } else {
        s
    };
    if body.len() > 0 && all_digits(body) {
        Some(digits_value(body))
    } else {
        None
    }
}

/// Like `parse_unsigned`, where a minus sign may stand in place of the plus sign.
pub open spec fn parse_signed(s: Seq<char>) -> Option<int> {
    if s.len() > 0 && s[0] == '-' {
        if s.len() > 1 && all_digits(s.skip(1)) {
            Some(-(digits_value(s.skip(1)) as int))
        } else {
            None
        }
    } else {
        match parse_unsigned(s) {
            Some(v) => Some(v as int),
            None => None,
        }
    }
}

/// What `parse_unsigned` gives where it does not exceed `max`.
pub open spec fn parse_upto(s: Seq<char>, max: nat) -> Option<nat> {
    match parse_unsigned(s) {
        Some(v) => if v <= max {
            Some(v)
        } else {
            None
        },
        None => None,
    }
}

/// What `parse_signed` gives where it fits in 32 bits.
pub open spec fn parse_fd(s: Seq<char>) -> Option<i32> {
    match parse_signed(s) {
        Some(v) => if i32::MIN <= v <= i32::MAX {
            Some(v as i32)
        } else {
            None
        },
        None => None,
    }
}

/// The pieces of `s` between the occurrences of `sep`; one more piece than occurrences.
pub open spec fn split_on(s: Seq<char>, sep: char) -> Seq<Seq<char>>
    decreases s.len(),
{
    if s.len() == 0 {
        seq![seq![]]
    } else {
        let rest = split_on(s.drop_last(), sep);
        if s.last() == sep {
            rest.push(seq![])
        } else {
            rest.update(rest.len() - 1, rest.last().push(s.last()))
        }
    }
}

/// The character sequences of a list of strings.
pub open spec fn views(v: Seq<String>) -> Seq<Seq<char>> {
    Seq::new(v.len(), |i: int| v[i]@)
}

/// The character sequences of a list of string pairs.
pub open spec fn pair_views(v: Seq<(String, String)>) -> Seq<(Seq<char>, Seq<char>)> {
    Seq::new(v.len(), |i: int| (v[i].0@, v[i].1@))
}

/// The characters of an optional string.
pub open spec fn opt_view(s: Option<String>) -> Option<Seq<char>> {
    match s {
        Some(s) => Some(s@),
        None => None,
    }
}

/// `prefix` is how `s` begins.
pub open spec fn starts_with(s: Seq<char>, prefix: Seq<char>) -> bool {
    s.len() >= prefix.len() && s.take(prefix.len() as int) == prefix
}

/// The text that `String::from_utf8_lossy` makes of bytes.
pub uninterp spec fn lossy_text(bytes: Seq<u8>) -> Seq<char>;

/// `String::from_utf8_lossy`: the text depends on the bytes alone. How invalid sequences are
/// replaced is left unsaid; bytes that are valid UTF-8 give the text that they encode.
#[verifier::external_body]
pub(crate) fn from_utf8_lossy(bytes: &Vec<u8>) -> (s: String)
    ensures
        s@ == lossy_text(bytes@),
        vstd::utf8::valid_utf8(bytes@) ==> s@ == vstd::utf8::decode_utf8(bytes@),
{
    String::from_utf8_lossy(bytes).into_owned()
}

/// The character is white space, by the property of that name in Unicode.
pub open spec fn is_white_space(c: char) -> bool {
    let n = c as int;
    ||| 0x9 <= n <= 0xd
    ||| n == 0x20
    ||| n == 0x85
    ||| n == 0xa0
    ||| n == 0x1680
    ||| 0x2000 <= n <= 0x200a
    ||| n == 0x2028
    ||| n == 0x2029
    ||| n == 0x202f
    ||| n == 0x205f
    ||| n == 0x3000
}

/// The text without the white space that it begins and ends with.
pub open spec fn trimmed_text(s: Seq<char>) -> Seq<char>
    decreases s.len(),
{
    if s.len() == 0 {
        s
    } else if is_white_space(s[0]) {
        trimmed_text(s.skip(1))
    } else if is_white_space(s.last()) {
        trimmed_text(s.drop_last())
    } else {
        s
    }
}

/// `str::trim`: the text without leading and trailing white space, which is what has the Unicode
/// property `White_Space`.
#[verifier::external_body]
pub(crate) fn trim(s: &str) -> (t: String)
    ensures
        t@ == trimmed_text(s@),
{
    s.trim().to_string()
}

fn digit(d: u64) -> (c: char)
    requires
        d < 10,
    ensures
        c == digit_char(d as nat),
{
    match d {
        0 => '0',
        1 => '1',
        2 => '2',
        3 => '3',
        4 => '4',
        5 => '5',
        6 => '6',
        7 => '7',
        8 => '8',
        _ => '9',
    }
}

fn hex_digit(d: u64) -> (c: char)
    requires
        d < 16,
    ensures
        c == hex_char(d as nat),
{
    match d {
        10 => 'a',
        11 => 'b',
        12 => 'c',
        13 => 'd',
        14 => 'e',
        15 => 'f',
        _ => digit(d),
    }
}

/// Appends the decimal rendering of `n`.
pub fn push_decimal(out: &mut String, n: u64)
    ensures
        final(out)@ == old(out)@ + decimal(n as nat),
    decreases n,
{
    if n >= 10 {
        push_decimal(out, n / 10);
        out.push(digit(n % 10));
    } else {
        out.push(digit(n));
    }
}

/// The decimal rendering of `n`.
pub fn decimal_text(n: u64) -> (s: String)
    ensures
        s@ == decimal(n as nat),
{
    let mut s = String::new();
    push_decimal(&mut s, n);
    s
}

/// The decimal rendering of a file descriptor number.
pub fn fd_text(fd: i32) -> (s: String)
    ensures
        s@ == signed_decimal(fd as int),
{
    let mut s = String::new();
    if fd < 0 {
        s.push('-');
        let magnitude: i64 = -(fd as i64);
        push_decimal(&mut s, magnitude as u64);
    } else {
        push_decimal(&mut s, fd as u64);
    }
    s
}

/// Appends the `width` low decimal digits of `n`.
pub fn push_zero_padded(out: &mut String, n: u64, width: u8)
    ensures
        final(out)@ == old(out)@ + zero_padded(n as nat, width as nat),
    decreases width,
{
    if width > 0 {
        push_zero_padded(out, n / 10, width - 1);
        out.push(digit(n % 10));
    }
}

/// Appends the `width` low hexadecimal digits of `n`.
pub fn push_hex_padded(out: &mut String, n: u64, width: u8)
    ensures
        final(out)@ == old(out)@ + hex_padded(n as nat, width as nat),
    decreases width,
{
    if width > 0 {
        push_hex_padded(out, n / 16, width - 1);
        out.push(hex_digit(n % 16));
    }
}

/// Appends `s`, then spaces up to `width` characters.
pub fn push_padded_right(out: &mut String, s: &str, width: usize)
    ensures
        final(out)@ == old(out)@ + padded_right(s@, width as nat),
{
    out.append(s);
    let mut n: usize = s.unicode_len();
    let ghost start = out@;
    while n < width
        invariant
            s@.len() <= n,
            n <= width || n == s@.len(),
            out@ == start + Seq::new((n - s@.len()) as nat, |i: int| ' '),
        decreases width - n,
    {
        out.push(' ');
        n = n + 1;
    }
}

/// The two texts hold the same characters.
pub fn same_text(a: &str, b: &str) -> (r: bool)
    ensures
        r == (a@ == b@),
{
    *a == *b
}

/// The characters of a text.
pub fn chars_of(s: &str) -> (v: Vec<char>)
    ensures
        v@ == s@,
{
    let mut v: Vec<char> = Vec::new();
    for c in it: s.chars()
        invariant
            v@ == it.seq().take(it.index() as int),
    {
        v.push(c);
    }
    v
}

/// The text begins with `prefix`.
pub fn has_prefix(s: &str, prefix: &str) -> (r: bool)
    ensures
        r == starts_with(s@, prefix@),
{
    let a = chars_of(s);
    let b = chars_of(prefix);
    if a.len() < b.len() {
        return false;
    }
    let mut i: usize = 0;
    while i < b.len()
        invariant
            i <= b.len() <= a.len(),
            a@ == s@,
            b@ == prefix@,
            forall|j: int| 0 <= j < i ==> a@[j] == b@[j],
        decreases b.len() - i,
    {
        if a[i] != b[i] {
            proof {
                assert(s@.take(prefix@.len() as int)[i as int] != prefix@[i as int]);
            }
            return false;
        }
        i = i + 1;
    }
    proof {
        assert(s@.take(prefix@.len() as int) =~= prefix@);
    }
    true
}

/// The text occurs in the list.
pub fn lists(list: &Vec<String>, s: &str) -> (r: bool)
    ensures
        r == views(list@).contains(s@),
{
    let mut i: usize = 0;
    while i < list.len()
        invariant
            i <= list.len(),
            forall|j: int| 0 <= j < i ==> list@[j]@ != s@,
        decreases list.len() - i,
    {
        if same_text(list[i].as_str(), s) {
            proof {
                assert(views(list@)[i as int] == s@);
            }
            return true;
        }
        i = i + 1;
    }
    false
}

proof fn lemma_digits_value_prefix(s: Seq<char>, k: int)
    requires
        0 <= k <= s.len(),
    ensures
        digits_value(s.take(k)) <= digits_value(s),
    decreases s.len() - k,
{
    if k == s.len() {
        assert(s.take(k) =~= s);
    } else {
        lemma_digits_value_prefix(s, k + 1);
        assert(s.take(k + 1).drop_last() =~= s.take(k));
    }
}

/// Reads `body` as decimal digits; `None` where it is no such number, or one above `max`.
fn digits_upto(body: &Vec<char>, from: usize, max: u64) -> (r: Option<u64>)
    requires
        from <= body@.len(),
    ensures
        ({
            let s = body@.skip(from as int);
            match r {
                Some(v) => s.len() > 0 && all_digits(s) && v == digits_value(s) && v <= max,
                None => s.len() == 0 || !all_digits(s) || digits_value(s) > max,
            }
        }),
{
    let ghost s = body@.skip(from as int);
    if from == body.len() {
        return None;
    }
    let mut acc: u64 = 0;
    let mut i: usize = from;
    let mut over = false;
    while i < body.len()
        invariant
            from <= i <= body@.len(),
            s == body@.skip(from as int),
            all_digits(s.take(i - from)),
            !over ==> acc == digits_value(s.take(i - from)) && acc <= max,
            over ==> digits_value(s.take(i - from)) > max,
        decreases body.len() - i,
    {
        let c = body[i];
        proof {
            assert(s[i - from] == c);
        }
        if c < '0' || c > '9' {
            proof {
                assert(!is_digit(s[i - from]));
            }
            return None;
        }
        let d: u64 = (c as u64) - ('0' as u64);
        proof {
            let k = (i - from) as int;
            assert(s.take(k + 1).drop_last() =~= s.take(k));
            assert(s.take(k + 1).last() == c);
            assert(all_digits(s.take(k + 1))) by {
                assert forall|j: int| 0 <= j < k + 1 implies is_digit(
                    #[trigger] s.take(k + 1)[j],
                ) by {
                    if j < k {
                        assert(s.take(k)[j] == s.take(k + 1)[j]);
                    }
                }
            }
        }
        if !over {
            let next: u128 = (acc as u128) * 10 + (d as u128);
            if next > max as u128 {
                over = true;
            } else {
                acc = next as u64;
            }
        }
        i = i + 1;
    }
    proof {
        assert(s.take(s.len() as int) =~= s);
    }
    if over {
        None
    } else {
        Some(acc)
    }
}

/// Reads an unsigned number no greater than `max`.
pub fn parse_bounded(s: &str, max: u64) -> (r: Option<u64>)
    ensures
        r is Some <==> parse_upto(s@, max as nat) is Some,
        r is Some ==> parse_upto(s@, max as nat) == Some(r->0 as nat),
{
    let v = chars_of(s);
    if v.len() > 0 && v[0] == '+' {
        digits_upto(&v, 1, max)
    } else {
        proof {
            assert(v@.skip(0) =~= s@);
        }
        digits_upto(&v, 0, max)
    }
}

pub fn parse_u64(s: &str) -> (r: Option<u64>)
    ensures
        r is Some <==> parse_upto(s@, u64::MAX as nat) is Some,
        r is Some ==> parse_upto(s@, u64::MAX as nat) == Some(r->0 as nat),
{
    parse_bounded(s, u64::MAX)
}

pub fn parse_u32(s: &str) -> (r: Option<u32>)
    ensures
        r is Some <==> parse_upto(s@, u32::MAX as nat) is Some,
        r is Some ==> parse_upto(s@, u32::MAX as nat) == Some(r->0 as nat),
{
    match parse_bounded(s, u32::MAX as u64) {
        Some(v) => Some(v as u32),
        None => None,
    }
}

/// Reads a signed 32-bit number, such as a file descriptor.
pub fn parse_i32(s: &str) -> (r: Option<i32>)
    ensures
        r == parse_fd(s@),
{
    let v = chars_of(s);
    if v.len() > 0 && v[0] == '-' {
        match digits_upto(&v, 1, 0x8000_0000) {
            Some(m) => Some((-(m as i64)) as i32),
            None => None,
        }
    } else {
        match parse_bounded(s, 0x7fff_ffff) {
            Some(m) => Some(m as i32),
            None => None,
        }
    }
}

/// Splits a text at each occurrence of `sep`.
pub fn split_text(s: &str, sep: char) -> (v: Vec<String>)
    ensures
        views(v@) == split_on(s@, sep),
{
    let cs = chars_of(s);
    let mut out: Vec<String> = Vec::new();
    let mut cur = String::new();
    let mut i: usize = 0;
    proof {
        assert(s@.take(0) =~= seq![]);
        assert(views(out@).push(cur@) =~= split_on(s@.take(0), sep));
    }
    while i < cs.len()
        invariant
            i <= cs@.len(),
            cs@ == s@,
            views(out@).push(cur@) == split_on(s@.take(i as int), sep),
        decreases cs.len() - i,
    {
        let c = cs[i];
        let ghost before = views(out@).push(cur@);
        proof {
            assert(s@.take(i + 1).drop_last() =~= s@.take(i as int));
            assert(s@.take(i + 1).last() == c);
        }
        if c == sep {
            let piece = cur;
            out.push(piece);
            cur = String::new();
            proof {
                assert(views(out@).push(cur@) =~= before.push(seq![]));
            }
        } else {
            cur.push(c);
            proof {
                assert(before.last().push(c) == cur@);
                assert(views(out@).push(cur@) =~= before.update(
                    before.len() - 1,
                    before.last().push(c),
                ));
            }
        }
        i = i + 1;
    }
    proof {
        assert(s@.take(s@.len() as int) =~= s@);
    }
    let ghost prev = out@;
    let ghost last = cur@;
    out.push(cur);
    proof {
        assert(views(out@) =~= views(prev).push(last));
    }
    out
}

proof fn lemma_decimal_digits(n: nat)
    ensures
        decimal(n).len() > 0,
        all_digits(decimal(n)),
        digits_value(decimal(n)) == n,
    decreases n,
{
    if n < 10 {
        reveal_with_fuel(digits_value, 2);
        assert(decimal(n).drop_last() =~= seq![]);
    } else {
        lemma_decimal_digits(n / 10);
        assert(decimal(n).drop_last() =~= decimal(n / 10));
        assert forall|i: int| 0 <= i < decimal(n).len() implies is_digit(
            #[trigger] decimal(n)[i],
        ) by {
            if i < decimal(n / 10).len() {
                assert(decimal(n)[i] == decimal(n / 10)[i]);
            }
        }
    }
}

/// Reading back what was rendered gives the number itself.
pub proof fn decimal_parses_back(n: nat)
    ensures
        parse_unsigned(decimal(n)) == Some(n),
{
    lemma_decimal_digits(n);
    assert(is_digit(decimal(n)[0]));
}

/// Reading back a rendered descriptor number gives the number itself.
pub proof fn signed_decimal_parses_back(n: i32)
    ensures
        parse_fd(signed_decimal(n as int)) == Some(n),
{
    if n < 0 {
        let m = (-(n as int)) as nat;
        lemma_decimal_digits(m);
        assert(signed_decimal(n as int).skip(1) =~= decimal(m));
    } else {
        decimal_parses_back(n as nat);
        lemma_decimal_digits(n as nat);
        assert(is_digit(decimal(n as nat)[0]));
    }
}

/// One more digit behind a number makes it ten times as large and adds that digit.
pub proof fn decimal_is_base_ten(n: nat, d: nat)
    requires
        d < 10,
    ensures
        decimal(d).len() == 1,
        decimal(d)[0] as int == 48 + d,
        n > 0 ==> decimal(10 * n + d).drop_last() == decimal(n),
        n > 0 ==> decimal(10 * n + d).last() as int == 48 + d,
{
    if n > 0 {
        assert((10 * n + d) / 10 == n);
        assert((10 * n + d) % 10 == d);
        assert(decimal(10 * n + d).drop_last() =~= decimal(n));
    }
}

/// Reading goes by the same rule: a digit behind a number that reads as `v` gives ten times `v`
/// and the digit; anything else there, or nothing at all, is no number.
pub proof fn digits_are_read_in_base_ten(s: Seq<char>, c: char)
    requires
        parse_unsigned(s) is Some,
    ensures
        48 <= c as int <= 57 ==> parse_unsigned(s.push(c)) == Some(
            (10 * parse_unsigned(s)->0 + (c as int - 48)) as nat,
        ),
        !(48 <= c as int <= 57) ==> parse_unsigned(s.push(c)) is None,
        48 <= c as int <= 57 ==> parse_unsigned(seq![c]) == Some((c as int - 48) as nat),
        !(48 <= c as int <= 57) ==> parse_unsigned(seq![c]) is None,
        parse_unsigned(Seq::<char>::empty()) is None,
{
    let signed = s[0] == '+';
    let body = if signed {
        s.skip(1)
    } else {
        s
    };
    let t = s.push(c);
    let next = if signed {
        t.skip(1)
    } else {
        t
    };
    assert(next =~= body.push(c));
    assert(next.drop_last() =~= body);
    assert(next.last() == c);
    if 48 <= c as int <= 57 {
        assert forall|i: int| 0 <= i < next.len() implies is_digit(#[trigger] next[i]) by {
            if i < body.len() {
                assert(next[i] == body[i]);
            }
        }
    } else {
        assert(!is_digit(next[next.len() - 1]));
    }
    let one = seq![c];
    assert(one.skip(1) =~= Seq::<char>::empty());
    assert(one.drop_last() =~= Seq::<char>::empty());
    reveal_with_fuel(digits_value, 2);
    if !(48 <= c as int <= 57) {
        assert(!is_digit(one[0]));
    }
}

/// A bound only turns numbers away: what is not above it reads as before. Descriptor numbers reach
/// as far as 32 bits with a sign do.
pub proof fn bounds_only_turn_away(s: Seq<char>, max: nat)
    ensures
        parse_unsigned(s) is None ==> parse_upto(s, max) is None,
        parse_unsigned(s) is Some && parse_unsigned(s)->0 <= max ==> parse_upto(s, max)
            == parse_unsigned(s),
        parse_unsigned(s) is Some && parse_unsigned(s)->0 > max ==> parse_upto(s, max) is None,
        parse_unsigned(s) is Some ==> (parse_fd(s) is Some <==> parse_unsigned(s)->0 < 0x8000_0000),
        parse_unsigned(s) is Some && parse_unsigned(s)->0 < 0x8000_0000 ==> parse_fd(s)->0
            == parse_unsigned(s)->0,
{
    if s.len() > 0 && s[0] == '-' {
        assert(!is_digit(s[0]));
    }
}

/// A leading plus sign changes nothing, and does not stand twice; a minus sign makes the number
/// negative, where negative numbers are read at all.
pub proof fn signs_are_read(s: Seq<char>)
    requires
        parse_unsigned(s) is Some,
        is_digit(s[0]),
    ensures
        parse_unsigned(seq!['+'] + s) == parse_unsigned(s),
        parse_unsigned(seq!['+', '+'] + s) is None,
        parse_unsigned(seq!['-'] + s) is None,
        parse_signed(s) == Some(parse_unsigned(s)->0 as int),
        parse_signed(seq!['+'] + s) == Some(parse_unsigned(s)->0 as int),
        parse_signed(seq!['-'] + s) == Some(-(parse_unsigned(s)->0 as int)),
{
    assert((seq!['+'] + s).skip(1) =~= s);
    assert((seq!['-'] + s).skip(1) =~= s);
    assert(!is_digit((seq!['-'] + s)[0]));
    let twice = (seq!['+', '+'] + s).skip(1);
    assert(!is_digit(twice[0]));
}

/// A text without the separator is one piece; elsewhere the pieces on both sides of a separator
/// are those of the two sides.
pub proof fn pieces_stand_between_separators(a: Seq<char>, b: Seq<char>, sep: char)
    ensures
        !a.contains(sep) ==> split_on(a, sep) == seq![a],
        split_on(a.push(sep) + b, sep) == split_on(a, sep) + split_on(b, sep),
{
    lemma_single_piece(a, sep);
    lemma_split_at(a, b, sep);
}

proof fn lemma_single_piece(a: Seq<char>, sep: char)
    ensures
        split_on(a, sep).len() > 0,
        !a.contains(sep) ==> split_on(a, sep) == seq![a],
    decreases a.len(),
{
    if a.len() > 0 {
        let rest = a.drop_last();
        lemma_single_piece(rest, sep);
        assert(a[a.len() - 1] == a.last());
        if !a.contains(sep) {
            assert(!rest.contains(sep)) by {
                assert forall|i: int| 0 <= i < rest.len() implies rest[i] != sep by {
                    assert(rest[i] == a[i]);
                }
            }
            assert(rest.push(a.last()) =~= a);
            assert(split_on(a, sep) =~= seq![a]);
        }
    } else {
        assert(a =~= seq![]);
    }
}

proof fn lemma_split_at(a: Seq<char>, b: Seq<char>, sep: char)
    ensures
        split_on(a.push(sep) + b, sep) == split_on(a, sep) + split_on(b, sep),
    decreases b.len(),
{
    let whole = a.push(sep) + b;
    if b.len() == 0 {
        assert(whole =~= a.push(sep));
        assert(whole.drop_last() =~= a);
        assert(split_on(a, sep).push(seq![]) =~= split_on(a, sep) + split_on(b, sep));
    } else {
        let rest = b.drop_last();
        lemma_split_at(a, rest, sep);
        lemma_single_piece(rest, sep);
        assert(whole.drop_last() =~= a.push(sep) + rest);
        assert(whole.last() == b.last());
        assert(split_on(whole, sep) =~= split_on(a, sep) + split_on(b, sep));
    }
}

/// Ten to the power of `width`.
pub open spec fn ten_to(width: nat) -> nat
    decreases width,
{
    if width == 0 {
        1
    } else {
        10 * ten_to((width - 1) as nat)
    }
}

/// A number that fits in `width` digits fills exactly as many with zeros in front, and reads back.
pub proof fn zeros_in_front_change_nothing(n: nat, width: nat)
    requires
        n < ten_to(width),
    ensures
        zero_padded(n, width).len() == width,
        width > 0 ==> parse_unsigned(zero_padded(n, width)) == Some(n),
    decreases width,
{
    lemma_zero_padded(n, width);
    let s = zero_padded(n, width);
    if width > 0 {
        assert(is_digit(s[0]));
    }
}

proof fn lemma_zero_padded(n: nat, width: nat)
    requires
        n < ten_to(width),
    ensures
        zero_padded(n, width).len() == width,
        all_digits(zero_padded(n, width)),
        digits_value(zero_padded(n, width)) == n,
    decreases width,
{
    if width > 0 {
        let w = (width - 1) as nat;
        lemma_zero_padded(n / 10, w);
        let s = zero_padded(n, width);
        assert(s.drop_last() =~= zero_padded(n / 10, w));
        assert forall|i: int| 0 <= i < s.len() implies is_digit(#[trigger] s[i]) by {
            if i < w {
                assert(s[i] == zero_padded(n / 10, w)[i]);
            }
        }
    }
}

/// Hexadecimal digits count by sixteens: 0 to 9, then a to f.
pub proof fn hexadecimal_is_base_sixteen(n: nat, d: nat, width: nat)
    requires
        d < 16,
    ensures
        hex_padded(16 * n + d, width + 1).drop_last() == hex_padded(n, width),
        hex_padded(16 * n + d, width + 1).last() as int == (if d < 10 {
            48 + d
        } else {
            87 + d
        }),
        hex_padded(n, 0).len() == 0,
{
    assert((16 * n + d) / 16 == n);
    assert((16 * n + d) % 16 == d);
    assert(hex_padded(16 * n + d, width + 1).drop_last() =~= hex_padded(n, width));
}

/// Padding adds spaces behind the text up to the width, and nothing to a text that is as wide.
pub proof fn padding_adds_only_spaces(s: Seq<char>, width: nat)
    ensures
        starts_with(padded_right(s, width), s),
        s.len() >= width ==> padded_right(s, width) == s,
        s.len() < width ==> padded_right(s, width).len() == width,
        forall|i: int|
            s.len() <= i < padded_right(s, width).len() ==> #[trigger] padded_right(s, width)[i]
                == ' ',
{
    assert(padded_right(s, width).take(s.len() as int) =~= s);
    if s.len() >= width {
        assert(padded_right(s, width) =~= s);
    }
}

/// A text begins with a prefix exactly when something follows that completes it.
pub proof fn prefix_is_completed(s: Seq<char>, prefix: Seq<char>, rest: Seq<char>)
    ensures
        starts_with(prefix + rest, prefix),
        starts_with(s, prefix) ==> s == prefix + s.skip(prefix.len() as int),
{
    assert((prefix + rest).take(prefix.len() as int) =~= prefix);
    if starts_with(s, prefix) {
        assert(s =~= s.take(prefix.len() as int) + s.skip(prefix.len() as int));
    }
}

/// Blanks, tabs and line ends around a text are trimmed away, and a text that begins and ends with
/// printed ASCII characters stays whole.
pub proof fn blank_edges_are_trimmed(s: Seq<char>, c: char)
    ensures
        c == ' ' || c == '\t' || c == '\n' || c == '\r' ==> trimmed_text(seq![c] + s)
            == trimmed_text(s),
        c == ' ' || c == '\t' || c == '\n' || c == '\r' ==> trimmed_text(s.push(c)) == trimmed_text(
            s,
        ),
        s.len() > 0 && 0x21 <= s[0] as int <= 0x7e && 0x21 <= s.last() as int <= 0x7e
            ==> trimmed_text(s) == s,
    decreases s.len(),
{
    assert((seq![c] + s).skip(1) =~= s);
    let t = s.push(c);
    assert(t.drop_last() =~= s);
    if s.len() == 0 {
        assert(t.skip(1) =~= s);
    } else if is_white_space(s[0]) {
        blank_edges_are_trimmed(s.skip(1), c);
        assert(t.skip(1) =~= s.skip(1).push(c));
    }
}

} // verus!

//! Text helpers: characters of strings, decimal numbers, prefixes and
//! suffixes, and plain substring replacement.
use vstd::prelude::*;

verus! {

/// Appends one character to a string (`String::push`).
#[verifier::external_body]
pub(crate) fn push_char(s: &mut String, c: char)
    ensures
        final(s)@ == old(s)@.push(c),
{
    s.push(c)
}

/// The characters of a string.
pub fn chars_of(s: &str) -> (r: Vec<char>)
    ensures
        r@ == s@,
{
    let mut out: Vec<char> = Vec::new();
    let mut it = s.chars();
    proof {
        vstd::string::axiom_spec_iter(s);
    }
    loop
        invariant
            out@ + vstd::std_specs::iter::IteratorSpec::remaining(&it) == s@,
            vstd::std_specs::iter::IteratorSpec::decrease(&it) is Some,
        ensures
            out@ == s@,
        decreases vstd::std_specs::iter::IteratorSpec::decrease(&it)->0,
    {
        let ghost before = vstd::std_specs::iter::IteratorSpec::remaining(&it);
        match it.next() {
            Some(c) => {
                proof {
                    assert(out@.push(c) + before.drop_first() == out@ + before);
                }
                out.push(c);
            },
            None => {
                proof {
                    assert(out@ + before == out@);
                }
                break;
            },
        }
    }
    out
}

/// A string made of the given characters.
pub fn string_of(chars: &Vec<char>) -> (r: String)
    ensures
        r@ == chars@,
{
    let mut out = String::new();
    let mut i: usize = 0;
    while i < chars.len()
        invariant
            i <= chars@.len(),
            out@ == chars@.take(i as int),
        decreases chars@.len() - i,
    {
        push_char(&mut out, chars[i]);
        proof {
            assert(chars@.take(i as int + 1) == chars@.take(i as int).push(chars@[i as int]));
        }
        i = i + 1;
    }
    proof {
        assert(chars@.take(chars@.len() as int) == chars@);
    }
    out
}

/// Concatenation of strings.
pub fn concat_strs(parts: &Vec<&str>) -> (r: String)
    ensures
        r@ == concat_spec(parts@.map_values(|p: &str| p@)),
{
    let ghost views = parts@.map_values(|p: &str| p@);
    let mut out = String::new();
    let mut i: usize = 0;
    while i < parts.len()
        invariant
            i <= parts@.len(),
            views == parts@.map_values(|p: &str| p@),
            out@ == concat_spec(views.take(i as int)),
        decreases parts@.len() - i,
    {
        out.append(parts[i]);
        proof {
            assert(views.take(i as int + 1).drop_last() == views.take(i as int));
        }
        i = i + 1;
    }
    proof {
        assert(views.take(parts@.len() as int) == views);
    }
    out
}

/// All the parts one after the other.
pub open spec fn concat_spec(parts: Seq<Seq<char>>) -> Seq<char>
    decreases parts.len(),
{
    if parts.len() == 0 {
        Seq::empty()
    } else {
        concat_spec(parts.drop_last()) + parts.last()
    }
}

pub open spec fn is_digit(c: char) -> bool {
    '0' <= c <= '9'
}

pub open spec fn digit_value(c: char) -> int {
    c as int - '0' as int
}

pub open spec fn digit_char(d: int) -> char {
    (d + '0' as int) as char
}

/// Decimal notation of a natural number, without leading zeros ("0" for zero).
pub open spec fn decimal(n: nat) -> Seq<char>
    decreases n,
{
    if n < 10 {
        seq![digit_char(n as int)]
    } else {
        decimal(n / 10) + seq![digit_char((n % 10) as int)]
    }
}

/// The number that a sequence of decimal digits denotes.
pub open spec fn digits_value(s: Seq<char>) -> int
    decreases s.len(),
{
    if s.len() == 0 {
        0
    } else {
        digits_value(s.drop_last()) * 10 + digit_value(s.last())
    }
}

pub open spec fn all_digits(s: Seq<char>) -> bool {
    forall|i: int| 0 <= i < s.len() ==> is_digit(#[trigger] s[i])
}

/// What the standard library's integer parsing gives for `s` on a type whose
/// values run from `min` to `max`: an optional sign (`-` only where the type
/// is signed), then at least one decimal digit, and a value in range.
pub open spec fn parse_integer_spec(s: Seq<char>, min: int, max: int) -> Option<int> {
    let signed = min < 0;
    let negative = s.len() > 0 && s[0] == '-' && signed;
    let has_sign = s.len() > 0 && (s[0] == '+' || (s[0] == '-' && signed));
    let body = if has_sign { s.skip(1) } else { s };
    if body.len() == 0 || !all_digits(body) {
        None
    } else {
        let v = if negative { -digits_value(body) } else { digits_value(body) };
        if min <= v <= max {
            Some(v)
        } else {
            None
        }
    }
}

proof fn lemma_digits_value_nonneg(s: Seq<char>)
    requires
        all_digits(s),
    ensures
        digits_value(s) >= 0,
    decreases s.len(),
{
    if s.len() > 0 {
        lemma_digits_value_nonneg(s.drop_last());
    }
}

/// The character of a decimal digit.
fn digit_to_char(d: u64) -> (c: char)
    requires
        d < 10,
    ensures
        c == digit_char(d as int),
{
    if d == 0 {
        '0'
    } else if d == 1 {
        '1'
    } else if d == 2 {
        '2'
    } else if d == 3 {
        '3'
    } else if d == 4 {
        '4'
    } else if d == 5 {
        '5'
    } else if d == 6 {
        '6'
    } else if d == 7 {
        '7'
    } else if d == 8 {
        '8'
    } else {
        '9'
    }
}

/// Appends the decimal notation of `n`.
fn push_decimal(out: &mut Vec<char>, n: u64)
    ensures
        final(out)@ == old(out)@ + decimal(n as nat),
    decreases n,
{
    if n < 10 {
        out.push(digit_to_char(n));
    } else {
        push_decimal(out, n / 10);
        out.push(digit_to_char(n % 10));
        proof {
            assert(decimal(n as nat) == decimal((n / 10) as nat) + seq![digit_char((n % 10) as int)]);
        }
    }
}

/// Decimal notation of `n`.
pub fn decimal_string(n: u64) -> (r: String)
    ensures
        r@ == decimal(n as nat),
{
    let mut chars: Vec<char> = Vec::new();
    push_decimal(&mut chars, n);
    proof {
        assert(Seq::<char>::empty() + decimal(n as nat) == decimal(n as nat));
    }
    string_of(&chars)
}

/// Integer parsing as `str::parse` does it for a type ranging from `min` to
/// `max` (both within `i64`).
pub fn parse_integer(s: &str, min: i128, max: i128) -> (r: Option<i128>)
    requires
        -0x8000_0000_0000_0000 <= min <= 0 <= max <= 0xffff_ffff_ffff_ffff,
    ensures
        r == (match parse_integer_spec(s@, min as int, max as int) {
            Some(v) => Some(v as i128),
            None => None::<i128>,
        }),
{
    let chars = chars_of(s);
    let signed = min < 0;
    let n = chars.len();
    let negative = n > 0 && chars[0] == '-' && signed;
    let has_sign = n > 0 && (chars[0] == '+' || (chars[0] == '-' && signed));
    let start: usize = if has_sign { 1 } else { 0 };
    let ghost body = if has_sign { s@.skip(1) } else { s@ };
    proof {
        let sp = s@;
        assert(has_sign == (sp.len() > 0 && (sp[0] == '+' || (sp[0] == '-' && min < 0))));
        assert(negative == (sp.len() > 0 && sp[0] == '-' && min < 0));
    }
    if start >= n {
        proof {
            assert(body.len() == 0);
            assert(parse_integer_spec(s@, min as int, max as int) is None);
        }
        return None;
    }
    // The magnitude may reach `max`, or `-min` for a negative number.
    let limit: i128 = if negative { -min } else { max };
    let mut acc: i128 = 0;
    let mut over = false;
    let mut i: usize = start;
    while i < n
        invariant
            chars@ == s@,
            n == chars@.len(),
            start <= i <= n,
            body == s@.skip(start as int),
            body == (if has_sign { s@.skip(1) } else { s@ }),
            has_sign == (s@.len() > 0 && (s@[0] == '+' || (s@[0] == '-' && min < 0))),
            negative == (s@.len() > 0 && s@[0] == '-' && min < 0),
            limit == (if negative { -min } else { max as int }),
            -0x8000_0000_0000_0000 <= min <= 0 <= max <= 0xffff_ffff_ffff_ffff,
            0 <= limit <= 0x1_0000_0000_0000_0000,
            all_digits(body.take(i - start)),
            !over ==> acc == digits_value(body.take(i - start)) && 0 <= acc <= limit,
            over ==> digits_value(body.take(i - start)) > limit,
        decreases n - i,
    {
        let c = chars[i];
        if !('0' <= c && c <= '9') {
            proof {
                assert(body[i - start] == c);
                assert(!all_digits(body));
                assert(body.len() > 0);
                assert(parse_integer_spec(s@, min as int, max as int) is None);
            }
            return None;
        }
        let d: i128 = if c == '0' {
            0
        } else if c == '1' {
            1
        } else if c == '2' {
            2
        } else if c == '3' {
            3
        } else if c == '4' {
            4
        } else if c == '5' {
            5
        } else if c == '6' {
            6
        } else if c == '7' {
            7
        } else if c == '8' {
            8
        } else {
            9
        };
        assert(d == digit_value(c));
        proof {
            let p = body.take(i - start);
            let q = body.take(i - start + 1);
            assert(q.drop_last() == p);
            assert(q.last() == c);
            assert(digits_value(q) == digits_value(p) * 10 + d);
            assert(all_digits(q)) by {
                assert forall|k: int| 0 <= k < q.len() implies is_digit(#[trigger] q[k]) by {
                    if k < p.len() {
                        assert(q[k] == p[k]);
                    }
                }
            }
            lemma_digits_value_nonneg(p);
        }
        if !over {
            if acc * 10 + d > limit {
                over = true;
            } else {
                acc = acc * 10 + d;
            }
        } else {
            proof {
                let p = body.take(i - start);
                assert(digits_value(p) * 10 + d > limit) by (nonlinear_arith)
                    requires
                        digits_value(p) > limit,
                        limit >= 0,
                        d >= 0,
                ;
            }
        }
        i = i + 1;
    }
    proof {
        assert(body.take(n - start) == body);
    }
    if over {
        return None;
    }
    if negative {
        Some(-acc)
    } else {
        Some(acc)
    }
}

/// Index of the last `c` in `s`, or -1.
pub open spec fn last_index_of(s: Seq<char>, c: char) -> int
    decreases s.len(),
{
    if s.len() == 0 {
        -1
    } else if s.last() == c {
        s.len() - 1
    } else {
        last_index_of(s.drop_last(), c)
    }
}

/// Index of the last `c` in `s`.
pub fn last_char_index(s: &Vec<char>, c: char) -> (r: Option<usize>)
    ensures
        match r {
            Some(i) => last_index_of(s@, c) == i as int && i < s@.len(),
            None => last_index_of(s@, c) == -1,
        },
{
    let mut end: usize = s.len();
    proof {
        assert(s@.take(end as int) == s@);
    }
    while end > 0
        invariant
            end <= s@.len(),
            last_index_of(s@, c) == last_index_of(s@.take(end as int), c),
        decreases end,
    {
        if s[end - 1] == c {
            proof {
                assert(s@.take(end as int).last() == c);
            }
            return Some(end - 1);
        }
        proof {
            assert(s@.take(end as int).drop_last() == s@.take(end - 1));
        }
        end = end - 1;
    }
    proof {
        assert(s@.take(0) == Seq::<char>::empty());
    }
    None
}

/// `true` and `false`, as `bool::from_str` reads them.
pub open spec fn parse_bool_spec(s: Seq<char>) -> Option<bool> {
    if s == "true"@ {
        Some(true)
    } else if s == "false"@ {
        Some(false)
    } else {
        None
    }
}

/// Whether two character sequences are equal.
pub fn chars_equal(a: &Vec<char>, b: &Vec<char>) -> (r: bool)
    ensures
        r == (a@ == b@),
{
    if a.len() != b.len() {
        return false;
    }
    let mut i: usize = 0;
    while i < a.len()
        invariant
            a@.len() == b@.len(),
            i <= a@.len(),
            forall|k: int| 0 <= k < i ==> a@[k] == b@[k],
        decreases a@.len() - i,
    {
        if a[i] != b[i] {
            return false;
        }
        i = i + 1;
    }
    proof {
        assert(a@ =~= b@);
    }
    true
}

/// Whether two strings hold the same characters.
pub fn str_equal(a: &str, b: &str) -> (r: bool)
    ensures
        r == (a@ == b@),
{
    chars_equal(&chars_of(a), &chars_of(b))
}

/// `bool::from_str`.
pub fn parse_bool(s: &str) -> (r: Option<bool>)
    ensures
        r == parse_bool_spec(s@),
{
    if str_equal(s, "true") {
        Some(true)
    } else if str_equal(s, "false") {
        Some(false)
    } else {
        None
    }
}

/// Whether `s` begins with `prefix`.
pub open spec fn has_prefix(s: Seq<char>, prefix: Seq<char>) -> bool {
    prefix.len() <= s.len() && s.take(prefix.len() as int) == prefix
}

/// Whether `s` ends with `suffix`.
pub open spec fn has_suffix(s: Seq<char>, suffix: Seq<char>) -> bool {
    suffix.len() <= s.len() && s.skip(s.len() - suffix.len()) == suffix
}

/// Whether `pat` occurs in `s` at position `i`.
pub open spec fn occurs_at(s: Seq<char>, pat: Seq<char>, i: int) -> bool {
    0 <= i && i + pat.len() <= s.len() && s.subrange(i, i + pat.len()) == pat
}

pub fn starts_with_chars(s: &Vec<char>, prefix: &Vec<char>) -> (r: bool)
    ensures
        r == has_prefix(s@, prefix@),
{
    matches_at(s, prefix, 0)
}

pub fn ends_with_chars(s: &Vec<char>, suffix: &Vec<char>) -> (r: bool)
    ensures
        r == has_suffix(s@, suffix@),
{
    if suffix.len() > s.len() {
        return false;
    }
    let r = matches_at(s, suffix, s.len() - suffix.len());
    proof {
        assert(s@.subrange(s@.len() - suffix@.len(), s@.len() as int) == s@.skip(
            s@.len() - suffix@.len(),
        ));
    }
    r
}

/// Whether `pat` occurs in `s` at position `i`.
pub fn matches_at(s: &Vec<char>, pat: &Vec<char>, i: usize) -> (r: bool)
    ensures
        r == occurs_at(s@, pat@, i as int),
        i == 0 ==> r == has_prefix(s@, pat@),
{
    if i > s.len() || pat.len() > s.len() - i {
        return false;
    }
    let mut k: usize = 0;
    let sl = s.len();
    while k < pat.len()
        invariant
            sl == s@.len(),
            i + pat@.len() <= s@.len(),
            k <= pat@.len(),
            forall|j: int| 0 <= j < k ==> s@[i + j] == pat@[j],
        decreases pat@.len() - k,
    {
        assert(i + k < s@.len());
        let j: usize = i + k;
        if s[j] != pat[k] {
            proof {
                assert(s@.subrange(i as int, i + pat@.len())[k as int] != pat@[k as int]);
            }
            return false;
        }
        k = k + 1;
    }
    proof {
        assert(s@.subrange(i as int, i + pat@.len()) =~= pat@);
        if i == 0 {
            assert(s@.take(pat@.len() as int) == s@.subrange(0, pat@.len() as int));
        }
    }
    true
}

/// `s` with every non-overlapping occurrence of `pat`, scanning from the
/// left, replaced by `with` (what `str::replace` does; `pat` is not empty).
pub open spec fn replace_all(s: Seq<char>, pat: Seq<char>, with: Seq<char>) -> Seq<char>
    recommends
        pat.len() > 0,
    decreases s.len(),
{
    if s.len() == 0 || pat.len() == 0 {
        s
    } else if has_prefix(s, pat) {
        with + replace_all(s.skip(pat.len() as int), pat, with)
    } else {
        seq![s[0]] + replace_all(s.skip(1), pat, with)
    }
}

/// `str::replace` for a non-empty pattern, on characters.
pub fn replace_chars(s: &Vec<char>, pat: &Vec<char>, with: &Vec<char>) -> (r: Vec<char>)
    requires
        pat@.len() > 0,
    ensures
        r@ == replace_all(s@, pat@, with@),
{
    let mut out: Vec<char> = Vec::new();
    let mut i: usize = 0;
    proof {
        assert(s@.skip(0) == s@);
        assert(Seq::<char>::empty() + replace_all(s@, pat@, with@) == replace_all(s@, pat@, with@));
    }
    while i < s.len()
        invariant
            pat@.len() > 0,
            i <= s@.len(),
            out@ + replace_all(s@.skip(i as int), pat@, with@) == replace_all(s@, pat@, with@),
        decreases s@.len() - i,
    {
        let ghost rest = s@.skip(i as int);
        let m = matches_at(s, pat, i);
        proof {
            if m {
                assert(rest.take(pat@.len() as int) == s@.subrange(i as int, i + pat@.len()));
                assert(has_prefix(rest, pat@));
            } else {
                if has_prefix(rest, pat@) {
                    assert(rest.take(pat@.len() as int) == s@.subrange(
                        i as int,
                        i + pat@.len(),
                    ));
                }
            }
        }
        if m {
            let ghost before = out@;
            let mut k: usize = 0;
            while k < with.len()
                invariant
                    k <= with@.len(),
                    out@ == before + with@.take(k as int),
                decreases with@.len() - k,
            {
                out.push(with[k]);
                proof {
                    assert(with@.take(k as int + 1) == with@.take(k as int).push(with@[k as int]));
                }
                k = k + 1;
            }
            proof {
                assert(with@.take(with@.len() as int) == with@);
                assert(rest.skip(pat@.len() as int) == s@.skip(i + pat@.len()));
                assert(out@ + replace_all(s@.skip(i + pat@.len()), pat@, with@) == before + (
                with@ + replace_all(rest.skip(pat@.len() as int), pat@, with@)));
            }
            i = i + pat.len();
        } else {
            let ghost before = out@;
            out.push(s[i]);
            proof {
                assert(rest[0] == s@[i as int]);
                assert(rest.skip(1) == s@.skip(i + 1));
                assert(out@ + replace_all(s@.skip(i + 1), pat@, with@) == before + (seq![rest[0]]
                    + replace_all(rest.skip(1), pat@, with@)));
            }
            i = i + 1;
        }
    }
    proof {
        assert(s@.skip(s@.len() as int) == Seq::<char>::empty());
        assert(out@ + Seq::<char>::empty() == out@);
    }
    out
}

/// `s` with `prefix` removed from its front as many times as it repeats
/// (what `str::trim_start_matches` does; `prefix` is not empty).
pub open spec fn trim_prefix_repeated(s: Seq<char>, prefix: Seq<char>) -> Seq<char>
    decreases s.len(),
{
    if prefix.len() > 0 && has_prefix(s, prefix) {
        trim_prefix_repeated(s.skip(prefix.len() as int), prefix)
    } else {
        s
    }
}

/// `str::trim_start_matches` for a non-empty pattern, on characters.
pub fn trim_start_matches_chars(s: &Vec<char>, prefix: &Vec<char>) -> (r: Vec<char>)
    requires
        prefix@.len() > 0,
    ensures
        r@ == trim_prefix_repeated(s@, prefix@),
{
    let mut i: usize = 0;
    let n = s.len();
    proof {
        assert(s@.skip(0) == s@);
    }
    while matches_at(s, prefix, i)
        invariant
            n == s@.len(),
            prefix@.len() > 0,
            i <= s@.len(),
            trim_prefix_repeated(s@.skip(i as int), prefix@) == trim_prefix_repeated(
                s@,
                prefix@,
            ),
        decreases s@.len() - i,
    {
        proof {
            let rest = s@.skip(i as int);
            assert(rest.take(prefix@.len() as int) == s@.subrange(i as int, i + prefix@.len()));
            assert(rest.skip(prefix@.len() as int) == s@.skip(i + prefix@.len()));
        }
        i = i + prefix.len();
    }
    proof {
        let rest = s@.skip(i as int);
        if has_prefix(rest, prefix@) {
            assert(rest.take(prefix@.len() as int) == s@.subrange(i as int, i + prefix@.len()));
        }
    }
    let mut out: Vec<char> = Vec::new();
    let mut k: usize = i;
    while k < s.len()
        invariant
            i <= k <= s@.len(),
            out@ == s@.subrange(i as int, k as int),
        decreases s@.len() - k,
    {
        out.push(s[k]);
        proof {
            assert(s@.subrange(i as int, k + 1) == s@.subrange(i as int, k as int).push(
                s@[k as int],
            ));
        }
        k = k + 1;
    }
    proof {
        assert(s@.subrange(i as int, s@.len() as int) == s@.skip(i as int));
    }
    out
}

} // verus!

verus! {

proof fn lemma_digit_char(d: int)
    requires
        0 <= d < 10,
    ensures
        is_digit(digit_char(d)),
        digit_value(digit_char(d)) == d,
{
}

/// The decimal notation of a number is made of digits and denotes the number.
pub proof fn lemma_decimal_digits(n: nat)
    ensures
        decimal(n).len() >= 1,
        all_digits(decimal(n)),
        digits_value(decimal(n)) == n,
    decreases n,
{
    if n < 10 {
        lemma_digit_char(n as int);
        assert(decimal(n).drop_last() == Seq::<char>::empty());
        assert(digits_value(Seq::<char>::empty()) == 0);
        assert(decimal(n).last() == digit_char(n as int));
        assert(digits_value(decimal(n)) == digits_value(decimal(n).drop_last()) * 10 + digit_value(
            decimal(n).last(),
        ));
    } else {
        lemma_decimal_digits(n / 10);
        lemma_digit_char((n % 10) as int);
        let d = decimal(n);
        assert(d.drop_last() == decimal(n / 10));
        assert(d.last() == digit_char((n % 10) as int));
        assert(digits_value(d) == digits_value(decimal(n / 10)) * 10 + digit_value(d.last()));
        assert((n / 10) * 10 + n % 10 == n) by (nonlinear_arith);
        assert(all_digits(d)) by {
            assert forall|i: int| 0 <= i < d.len() implies is_digit(#[trigger] d[i]) by {
                if i < d.len() - 1 {
                    assert(d[i] == decimal(n / 10)[i]);
                }
            }
        }
    }
}

/// Reading back the decimal notation of a number gives the number, for any
/// integer type that holds it.
pub proof fn lemma_parse_decimal_roundtrip(n: nat, min: int, max: int)
    requires
        min <= 0,
        n <= max,
    ensures
        parse_integer_spec(decimal(n), min, max) == Some(n as int),
{
    lemma_decimal_digits(n);
    let s = decimal(n);
    assert(is_digit(s[0]));
}

/// Taking off a prefix that is there, and that is not repeated, gives back
/// what followed it.
pub proof fn lemma_trim_prefix_once(prefix: Seq<char>, rest: Seq<char>)
    requires
        prefix.len() > 0,
        !has_prefix(rest, prefix),
    ensures
        trim_prefix_repeated(prefix + rest, prefix) == rest,
{
    let s = prefix + rest;
    assert(s.take(prefix.len() as int) == prefix);
    assert(s.skip(prefix.len() as int) == rest);
    assert(trim_prefix_repeated(rest, prefix) == rest);
}

} // verus!

verus! {

/// `10^k`.
pub open spec fn pow10(k: nat) -> nat
    decreases k,
{
    if k == 0 {
        1
    } else {
        10 * pow10((k - 1) as nat)
    }
}

/// A number below `10^k` takes at most `k` digits.
pub proof fn lemma_decimal_len(n: nat, k: nat)
    requires
        k >= 1,
        n < pow10(k),
    ensures
        decimal(n).len() <= k,
    decreases k,
{
    if n >= 10 {
        assert(k >= 2) by {
            if k == 1 {
                assert(pow10(1) == 10 * pow10(0));
            }
        }
        assert(n / 10 < pow10((k - 1) as nat)) by {
            assert(pow10(k) == 10 * pow10((k - 1) as nat));
        }
        lemma_decimal_len(n / 10, (k - 1) as nat);
    }
}

} // verus!

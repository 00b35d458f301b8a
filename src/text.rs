use vstd::prelude::*;
use vstd::string::StrSliceExecFns;

verus! {

/// The characters of `s`, in order.
pub(crate) fn chars_of(s: &str) -> (r: Vec<char>)
    ensures
        r@ == s@,
{
    let n = s.unicode_len();
    let mut r: Vec<char> = Vec::new();
    let mut i: usize = 0;
    while i < n
        invariant
            i <= n,
            n == s@.len(),
            r@ == s@.subrange(0, i as int),
        decreases n - i,
    {
        r.push(s.get_char(i));
        i = i + 1;
        assert(r@ =~= s@.subrange(0, i as int));
    }
    assert(s@.subrange(0, n as int) =~= s@);
    r
}

/// Relies on `FromIterator<char>` for `String`: the string of these characters, in order.
#[verifier::external_body]
pub(crate) fn string_of(c: &Vec<char>) -> (r: String)
    ensures
        r@ == c@,
{
    c.iter().collect()
}

/// The Unicode `White_Space` characters, the ones that trimming removes.
pub open spec fn is_space(c: char) -> bool {
    ||| '\u{9}' <= c <= '\u{D}'
    ||| c == ' '
    ||| c == '\u{85}'
    ||| c == '\u{A0}'
    ||| c == '\u{1680}'
    ||| '\u{2000}' <= c <= '\u{200A}'
    ||| c == '\u{2028}'
    ||| c == '\u{2029}'
    ||| c == '\u{202F}'
    ||| c == '\u{205F}'
    ||| c == '\u{3000}'
}

/// `s` without its leading blanks.
pub open spec fn trim_front(s: Seq<char>) -> Seq<char>
    decreases s.len(),
{
    if s.len() > 0 && is_space(s[0]) {
        trim_front(s.drop_first())
    } else {
        s
    }
}

/// `s` without its trailing blanks.
pub open spec fn trim_back(s: Seq<char>) -> Seq<char>
    decreases s.len(),
{
    if s.len() > 0 && is_space(s.last()) {
        trim_back(s.drop_last())
    } else {
        s
    }
}

/// `s` without leading and trailing blanks.
pub open spec fn trim(s: Seq<char>) -> Seq<char> {
    trim_back(trim_front(s))
}

fn is_space_char(c: char) -> (r: bool)
    ensures
        r == is_space(c),
{
    ('\u{9}' <= c && c <= '\u{D}') || c == ' ' || c == '\u{85}' || c == '\u{A0}' || c == '\u{1680}'
        || ('\u{2000}' <= c && c <= '\u{200A}') || c == '\u{2028}' || c == '\u{2029}' || c == '\u{202F}'
        || c == '\u{205F}' || c == '\u{3000}'
}

/// `s` without leading and trailing blanks.
pub fn trim_chars(s: &Vec<char>) -> (r: Vec<char>)
    ensures
        r@ == trim(s@),
{
    let mut a: usize = 0;
    assert(s@.subrange(0, s.len() as int) =~= s@);
    while a < s.len() && is_space_char(s[a])
        invariant
            a <= s.len(),
            trim_front(s@) == trim_front(s@.subrange(a as int, s.len() as int)),
        decreases s.len() - a,
    {
        assert(s@.subrange(a as int, s.len() as int).drop_first() =~= s@.subrange(a + 1, s.len() as int));
        a = a + 1;
    }
    let mut b: usize = s.len();
    assert(s@.subrange(a as int, s.len() as int) =~= s@.subrange(a as int, b as int));
    while b > a && is_space_char(s[b - 1])
        invariant
            a <= b <= s.len(),
            trim_front(s@) == s@.subrange(a as int, s.len() as int),
            trim(s@) == trim_back(s@.subrange(a as int, b as int)),
        decreases b - a,
    {
        assert(s@.subrange(a as int, b as int).drop_last() =~= s@.subrange(a as int, b - 1));
        b = b - 1;
    }
    let mut r: Vec<char> = Vec::new();
    let mut i: usize = a;
    while i < b
        invariant
            a <= i <= b,
            b <= s.len(),
            r@ == s@.subrange(a as int, i as int),
        decreases b - i,
    {
        r.push(s[i]);
        i = i + 1;
        assert(r@ =~= s@.subrange(a as int, i as int));
    }
    r
}

/// A decimal digit.
pub open spec fn is_digit(c: char) -> bool {
    '0' <= c <= '9'
}

/// Every character is a decimal digit.
pub open spec fn all_digits(s: Seq<char>) -> bool {
    forall|i: int| 0 <= i < s.len() ==> is_digit(#[trigger] s[i])
}

/// The number written by the digits `s`, most significant first.
pub open spec fn digits_value(s: Seq<char>) -> nat
    decreases s.len(),
{
    if s.len() == 0 {
        0
    } else {
        digits_value(s.drop_last()) * 10 + (s.last() as nat - '0' as nat) as nat
    }
}

/// Ten to the power `n`.
pub open spec fn pow10(n: nat) -> nat
    decreases n,
{
    if n == 0 {
        1
    } else {
        10 * pow10((n - 1) as nat)
    }
}

/// A whole part: one to fifteen digits.
pub open spec fn valid_whole(s: Seq<char>) -> bool {
    1 <= s.len() <= 15 && all_digits(s)
}

/// A fractional part: one to three digits.
pub open spec fn valid_fraction(s: Seq<char>) -> bool {
    1 <= s.len() <= 3 && all_digits(s)
}

/// Thousandths written by the fractional digits `s`.
pub open spec fn fraction_value(s: Seq<char>) -> nat {
    digits_value(s) * pow10((3 - s.len()) as nat)
}

/// A quantity written with a decimal point at `p`: digits before and after.
pub open spec fn point_at(t: Seq<char>, p: int) -> bool {
    &&& 0 <= p < t.len()
    &&& t[p] == '.'
    &&& valid_whole(t.subrange(0, p))
    &&& valid_fraction(t.subrange(p + 1, t.len() as int))
}

/// The quantity, in thousandths, that text `s` writes: one to fifteen digits,
/// optionally followed by a point and one to three digits, with nothing around
/// them (blanks included).
pub open spec fn quantity_spec(s: Seq<char>) -> Option<nat> {
    let t = s;
    if valid_whole(t) {
        Some(digits_value(t) * 1000)
    } else if exists|p: int| point_at(t, p) {
        let p = choose|p: int| point_at(t, p);
        Some(digits_value(t.subrange(0, p)) * 1000 + fraction_value(t.subrange(p + 1, t.len() as int)))
    } else {
        None
    }
}

/// The whole number that text `s` writes: one to fifteen digits, with nothing
/// around them (blanks included).
pub open spec fn whole_spec(s: Seq<char>) -> Option<nat> {
    let t = s;
    if valid_whole(t) {
        Some(digits_value(t))
    } else {
        None
    }
}

proof fn lemma_digits_bound(s: Seq<char>)
    requires
        all_digits(s),
    ensures
        digits_value(s) < pow10(s.len()),
    decreases s.len(),
{
    if s.len() > 0 {
        let p = s.drop_last();
        assert(all_digits(p)) by {
            assert forall|i: int| 0 <= i < p.len() implies is_digit(#[trigger] p[i]) by {
                assert(p[i] == s[i]);
            }
        }
        lemma_digits_bound(p);
        assert(is_digit(s[s.len() - 1]));
    }
}

proof fn lemma_pow10_15()
    ensures
        pow10(15) == 1_000_000_000_000_000,
{
    reveal_with_fuel(pow10, 16);
}

/// Value of the digits `t[from..to]`, which must all be digits, at most fifteen.
fn digits_number(t: &Vec<char>, from: usize, to: usize) -> (r: u64)
    requires
        from <= to <= t.len(),
        to - from <= 15,
        all_digits(t@.subrange(from as int, to as int)),
    ensures
        r == digits_value(t@.subrange(from as int, to as int)),
        r < 1_000_000_000_000_000,
{
    let mut acc: u64 = 0;
    let mut i: usize = from;
    proof {
        lemma_pow10_15();
        lemma_digits_bound(t@.subrange(from as int, to as int));
    }
    assert(t@.subrange(from as int, from as int) =~= Seq::<char>::empty());
    while i < to
        invariant
            from <= i <= to,
            to <= t.len(),
            to - from <= 15,
            all_digits(t@.subrange(from as int, to as int)),
            acc == digits_value(t@.subrange(from as int, i as int)),
            pow10(15) == 1_000_000_000_000_000,
        decreases to - i,
    {
        let ghost part = t@.subrange(from as int, i + 1);
        assert(part.drop_last() =~= t@.subrange(from as int, i as int));
        assert(t@.subrange(from as int, to as int)[i - from] == t@[i as int]);
        assert(is_digit(t@[i as int]));
        proof {
            assert(all_digits(part)) by {
                assert forall|j: int| 0 <= j < part.len() implies is_digit(#[trigger] part[j]) by {
                    assert(part[j] == t@.subrange(from as int, to as int)[j]);
                }
            }
            lemma_digits_bound(part);
            assert(pow10(part.len()) <= pow10(15)) by {
                lemma_pow10_mono(part.len(), 15);
            }
        }
        let d = (t[i] as u32 - '0' as u32) as u64;
        acc = acc * 10 + d;
        i = i + 1;
    }
    proof {
        lemma_pow10_mono((to - from) as nat, 15);
    }
    acc
}

proof fn lemma_pow10_mono(a: nat, b: nat)
    requires
        a <= b,
    ensures
        pow10(a) <= pow10(b),
    decreases b,
{
    if a < b {
        lemma_pow10_mono(a, (b - 1) as nat);
    }
}

/// Whether `t[from..to]` is all digits.
fn digits_only(t: &Vec<char>, from: usize, to: usize) -> (r: bool)
    requires
        from <= to <= t.len(),
    ensures
        r == all_digits(t@.subrange(from as int, to as int)),
{
    let mut i: usize = from;
    while i < to
        invariant
            from <= i <= to,
            to <= t.len(),
            forall|j: int| from <= j < i ==> is_digit(#[trigger] t@[j]),
        decreases to - i,
    {
        if !('0' <= t[i] && t[i] <= '9') {
            assert(t@.subrange(from as int, to as int)[i - from] == t@[i as int]);
            return false;
        }
        i = i + 1;
    }
    assert forall|j: int| 0 <= j < to - from implies is_digit(#[trigger] t@.subrange(from as int, to as int)[j]) by {
        assert(t@.subrange(from as int, to as int)[j] == t@[from + j]);
    }
    true
}

/// The quantity, in thousandths, that `s` writes (see `quantity_spec`).
pub fn parse_quantity(s: &str) -> (r: Option<u64>)
    ensures
        match r {
            Some(v) => quantity_spec(s@) == Some(v as nat),
            None => quantity_spec(s@) is None,
        },
{
    let t = chars_of(s);
    let n = t.len();
    assert(t@.subrange(0, n as int) =~= t@);
    if 1 <= n && n <= 15 && digits_only(&t, 0, n) {
        let v = digits_number(&t, 0, n);
        return Some(v * 1000);
    }
    let mut p: usize = 0;
    while p < n && t[p] != '.'
        invariant
            p <= n,
            n == t.len(),
            forall|j: int| 0 <= j < p ==> t@[j] != '.',
        decreases n - p,
    {
        p = p + 1;
    }
    if p == n {
        assert forall|q: int| !point_at(t@, q) by {
        }
        return None;
    }
    let whole_ok = 1 <= p && p <= 15 && digits_only(&t, 0, p);
    let frac_len = n - p - 1;
    let frac_ok = 1 <= frac_len && frac_len <= 3 && digits_only(&t, p + 1, n);
    if !(whole_ok && frac_ok) {
        assert forall|q: int| !point_at(t@, q) by {
            if point_at(t@, q) && q != p {
                if q < p {
                } else {
                    assert(t@.subrange(0, q)[p as int] == t@[p as int]);
                }
            }
        }
        return None;
    }
    assert(point_at(t@, p as int));
    assert forall|q: int| point_at(t@, q) implies q == p by {
        if q < p {
        } else if q > p {
            assert(t@.subrange(0, q)[p as int] == t@[p as int]);
        }
    }
    let whole = digits_number(&t, 0, p);
    let fr = digits_number(&t, p + 1, n);
    let scale: u64 = if frac_len == 1 {
        100
    } else if frac_len == 2 {
        10
    } else {
        1
    };
    proof {
        reveal_with_fuel(pow10, 3);
        lemma_digits_bound(t@.subrange(p + 1, n as int));
        reveal_with_fuel(pow10, 4);
    }
    Some(whole * 1000 + fr * scale)
}

/// The whole number that `s` writes (see `whole_spec`).
pub fn parse_whole(s: &str) -> (r: Option<u64>)
    ensures
        match r {
            Some(v) => whole_spec(s@) == Some(v as nat),
            None => whole_spec(s@) is None,
        },
{
    let t = chars_of(s);
    let n = t.len();
    assert(t@.subrange(0, n as int) =~= t@);
    if 1 <= n && n <= 15 && digits_only(&t, 0, n) {
        Some(digits_number(&t, 0, n))
    } else {
        None
    }
}

/// The pieces of `s` between the separators `sep`, in order.
pub open spec fn split_on(s: Seq<char>, sep: char) -> Seq<Seq<char>>
    decreases s.len(),
{
    if s.len() == 0 {
        seq![Seq::empty()]
    } else {
        let rest = split_on(s.drop_last(), sep);
        if s.last() == sep {
            rest.push(Seq::empty())
        } else {
            rest.update(rest.len() - 1, rest.last().push(s.last()))
        }
    }
}

proof fn lemma_split_nonempty(s: Seq<char>, sep: char)
    ensures
        split_on(s, sep).len() >= 1,
    decreases s.len(),
{
    if s.len() > 0 {
        lemma_split_nonempty(s.drop_last(), sep);
    }
}

/// The trimmed pieces that are not blank, in order.
pub open spec fn kept_pieces(pieces: Seq<Seq<char>>) -> Seq<Seq<char>>
    decreases pieces.len(),
{
    if pieces.len() == 0 {
        Seq::empty()
    } else {
        let rest = kept_pieces(pieces.drop_last());
        let t = trim(pieces.last());
        if t.len() > 0 {
            rest.push(t)
        } else {
            rest
        }
    }
}

/// The keywords of a comma-separated list: each piece trimmed, blank pieces dropped.
pub open spec fn keyword_list(s: Seq<char>) -> Seq<Seq<char>> {
    kept_pieces(split_on(s, ','))
}

/// The characters of each list of a list.
pub open spec fn char_lists_view(v: Seq<Vec<char>>) -> Seq<Seq<char>> {
    v.map_values(|c: Vec<char>| c@)
}

/// The keywords of the comma-separated list `s` (see `keyword_list`).
pub fn split_keywords(s: &str) -> (r: Vec<String>)
    ensures
        crate::models::strings_view(r@) == keyword_list(s@),
{
    let c = chars_of(s);
    let mut done: Vec<Vec<char>> = Vec::new();
    let mut cur: Vec<char> = Vec::new();
    let mut i: usize = 0;
    assert(c@.subrange(0, 0) =~= Seq::<char>::empty());
    assert(char_lists_view(done@).push(cur@) =~= seq![Seq::<char>::empty()]);
    while i < c.len()
        invariant
            i <= c.len(),
            char_lists_view(done@).push(cur@) == split_on(c@.subrange(0, i as int), ','),
        decreases c.len() - i,
    {
        let ghost prefix = c@.subrange(0, i + 1);
        assert(prefix.drop_last() =~= c@.subrange(0, i as int));
        proof {
            lemma_split_nonempty(c@.subrange(0, i as int), ',');
        }
        if c[i] == ',' {
            let finished = cur;
            let ghost fv = finished@;
            let ghost before = char_lists_view(done@);
            done.push(finished);
            assert(char_lists_view(done@) =~= before.push(fv));
            cur = Vec::new();
            assert(char_lists_view(done@).push(cur@) =~= before.push(fv).push(Seq::<char>::empty()));
        } else {
            let ghost before = char_lists_view(done@).push(cur@);
            cur.push(c[i]);
            assert(char_lists_view(done@).push(cur@) =~= before.update(before.len() - 1, before.last().push(c@[i as int])));
        }
        i = i + 1;
    }
    assert(c@.subrange(0, c.len() as int) =~= c@);
    let ghost pieces = split_on(c@, ',');
    done.push(cur);
    assert(char_lists_view(done@) =~= pieces);
    let mut r: Vec<String> = Vec::new();
    let mut k: usize = 0;
    assert(pieces.subrange(0, 0) =~= Seq::<Seq<char>>::empty());
    assert(crate::models::strings_view(r@) =~= Seq::<Seq<char>>::empty());
    while k < done.len()
        invariant
            k <= done.len(),
            char_lists_view(done@) == pieces,
            crate::models::strings_view(r@) == kept_pieces(pieces.subrange(0, k as int)),
        decreases done.len() - k,
    {
        let ghost part = pieces.subrange(0, k + 1);
        assert(part.drop_last() =~= pieces.subrange(0, k as int));
        assert(part.last() == done@[k as int]@);
        let t = trim_chars(&done[k]);
        if t.len() > 0 {
            let w = string_of(&t);
            let ghost before = crate::models::strings_view(r@);
            r.push(w);
            assert(crate::models::strings_view(r@) =~= before.push(t@));
        }
        k = k + 1;
    }
    assert(pieces.subrange(0, done.len() as int) =~= pieces);
    r
}

} // verus!

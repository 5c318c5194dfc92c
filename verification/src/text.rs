//! Character-level helpers shared by the parsers and formatters of the crate:
//! conversions between strings and character vectors, trimming, prefix and
//! suffix tests, decimal and hexadecimal rendering, and decimal parsing.
use vstd::prelude::*;
use vstd::std_specs::iter::IteratorSpec;

verus! {

broadcast use vstd::string::axiom_spec_iter;

/// The characters of `s`, in order.
pub fn chars_of(s: &str) -> (r: Vec<char>)
    ensures
        r@ == s@,
{
    let mut r: Vec<char> = Vec::new();
    for c in it: s.chars()
        invariant
            it.seq() == s@,
            r@ == it.seq().take(it.index() as int),
    {
        r.push(c);
    }
    r
}

/// Appends one character to a `String` (`String::push`).
#[verifier::external_body]
fn push_char(s: &mut String, c: char)
    ensures
        final(s)@ == old(s)@.push(c),
{
    s.push(c);
}

/// The `String` holding exactly the characters of `v`.
pub fn string_from(v: &[char]) -> (r: String)
    ensures
        r@ == v@,
{
    let mut r = String::new();
    let mut i: usize = 0;
    while i < v.len()
        invariant
            i <= v@.len(),
            r@ == v@.take(i as int),
        decreases v@.len() - i,
    {
        push_char(&mut r, v[i]);
        assert(v@.take(i as int).push(v@[i as int]) == v@.take(i + 1));
        i = i + 1;
    }
    assert(v@.take(v@.len() as int) == v@);
    r
}

/// Appends the characters of `b` to `a`.
pub fn append(a: &mut Vec<char>, b: &[char])
    ensures
        final(a)@ == old(a)@ + b@,
{
    let mut i: usize = 0;
    while i < b.len()
        invariant
            i <= b@.len(),
            a@ == old(a)@ + b@.take(i as int),
        decreases b@.len() - i,
    {
        a.push(b[i]);
        assert(b@.take(i + 1) == b@.take(i as int).push(b@[i as int]));
        i = i + 1;
    }
    assert(b@.take(b@.len() as int) == b@);
}

/// `String` built from the characters of a `&str`.
pub fn owned(s: &str) -> (r: String)
    ensures
        r@ == s@,
{
    s.to_owned()
}

/// Unicode `White_Space`, the property `char::is_whitespace` tests.
pub open spec fn is_white_space(c: char) -> bool {
    ||| ('\t' <= c && c <= '\r')
    ||| c == ' '
    ||| c == '\u{85}'
    ||| c == '\u{a0}'
    ||| c == '\u{1680}'
    ||| ('\u{2000}' <= c && c <= '\u{200a}')
    ||| c == '\u{2028}'
    ||| c == '\u{2029}'
    ||| c == '\u{202f}'
    ||| c == '\u{205f}'
    ||| c == '\u{3000}'
}

/// `char::is_whitespace`.
pub fn white_space(c: char) -> (r: bool)
    ensures
        r == is_white_space(c),
{
    ('\t' <= c && c <= '\r') || c == ' ' || c == '\u{85}' || c == '\u{a0}' || c == '\u{1680}'
        || ('\u{2000}' <= c && c <= '\u{200a}') || c == '\u{2028}' || c == '\u{2029}'
        || c == '\u{202f}' || c == '\u{205f}' || c == '\u{3000}'
}

/// A set of characters that trimming removes: Unicode white space, or one
/// given character.
pub enum CharClass {
    WhiteSpace,
    Exactly(char),
}

pub open spec fn in_class(cls: CharClass, c: char) -> bool {
    match cls {
        CharClass::WhiteSpace => is_white_space(c),
        CharClass::Exactly(d) => c == d,
    }
}

fn class_has(cls: &CharClass, c: char) -> (r: bool)
    ensures
        r == in_class(*cls, c),
{
    match cls {
        CharClass::WhiteSpace => white_space(c),
        CharClass::Exactly(d) => c == *d,
    }
}

/// `s` without its leading characters of class `cls` (`trim_start_matches`).
pub open spec fn trim_start(s: Seq<char>, cls: CharClass) -> Seq<char>
    decreases s.len(),
{
    if s.len() > 0 && in_class(cls, s[0]) {
        trim_start(s.drop_first(), cls)
    } else {
        s
    }
}

/// `s` without its trailing characters of class `cls` (`trim_end_matches`).
pub open spec fn trim_end(s: Seq<char>, cls: CharClass) -> Seq<char>
    decreases s.len(),
{
    if s.len() > 0 && in_class(cls, s.last()) {
        trim_end(s.drop_last(), cls)
    } else {
        s
    }
}

/// `s` without leading and trailing characters of class `cls`
/// (`trim_matches`; `trim` for white space).
pub open spec fn trim(s: Seq<char>, cls: CharClass) -> Seq<char> {
    trim_end(trim_start(s, cls), cls)
}

/// Index of the first character of `trim_start(s@, cls)`.
pub fn trim_start_index(s: &[char], cls: &CharClass) -> (b: usize)
    ensures
        b <= s@.len(),
        trim_start(s@, *cls) == s@.skip(b as int),
{
    let mut b: usize = 0;
    assert(s@.skip(0) == s@);
    while b < s.len() && class_has(cls, s[b])
        invariant
            b <= s@.len(),
            trim_start(s@, *cls) == trim_start(s@.skip(b as int), *cls),
        decreases s@.len() - b,
    {
        assert(s@.skip(b as int).drop_first() == s@.skip(b + 1));
        b = b + 1;
    }
    b
}

/// Length of `trim_end(s@, cls)`.
pub fn trim_end_index(s: &[char], cls: &CharClass) -> (e: usize)
    ensures
        e <= s@.len(),
        trim_end(s@, *cls) == s@.take(e as int),
{
    let mut e: usize = s.len();
    assert(s@.take(e as int) == s@);
    while e > 0 && class_has(cls, s[e - 1])
        invariant
            e <= s@.len(),
            trim_end(s@, *cls) == trim_end(s@.take(e as int), *cls),
        decreases e,
    {
        assert(s@.take(e as int).drop_last() == s@.take(e - 1));
        e = e - 1;
    }
    e
}

/// The characters of `s@[from..to]`.
pub fn slice(s: &[char], from: usize, to: usize) -> (r: Vec<char>)
    requires
        from <= to <= s@.len(),
    ensures
        r@ == s@.subrange(from as int, to as int),
{
    let mut r: Vec<char> = Vec::new();
    let mut i = from;
    while i < to
        invariant
            from <= i <= to <= s@.len(),
            r@ == s@.subrange(from as int, i as int),
        decreases to - i,
    {
        r.push(s[i]);
        i = i + 1;
    }
    r
}

/// `trim_start_matches`.
pub fn trimmed_start(s: &[char], cls: &CharClass) -> (r: Vec<char>)
    ensures
        r@ == trim_start(s@, *cls),
{
    let b = trim_start_index(s, cls);
    slice(s, b, s.len())
}

/// `trim_end_matches`.
pub fn trimmed_end(s: &[char], cls: &CharClass) -> (r: Vec<char>)
    ensures
        r@ == trim_end(s@, *cls),
{
    let e = trim_end_index(s, cls);
    slice(s, 0, e)
}

/// `trim_matches` (`trim` for white space).
pub fn trimmed(s: &[char], cls: &CharClass) -> (r: Vec<char>)
    ensures
        r@ == trim(s@, *cls),
{
    let a = trimmed_start(s, cls);
    trimmed_end(&a, cls)
}

/// Character-wise equality.
pub fn same(a: &[char], b: &[char]) -> (r: bool)
    ensures
        r == (a@ == b@),
{
    if a.len() != b.len() {
        return false;
    }
    let mut i: usize = 0;
    while i < a.len()
        invariant
            a@.len() == b@.len(),
            i <= a@.len(),
            forall|j: int| 0 <= j < i ==> a@[j] == b@[j],
        decreases a@.len() - i,
    {
        if a[i] != b[i] {
            return false;
        }
        i = i + 1;
    }
    assert(a@ =~= b@);
    true
}

/// `char::to_ascii_lowercase`.
pub open spec fn lower_char(c: char) -> char {
    if 'A' <= c && c <= 'Z' {
        ((c as u32) + 32) as char
    } else {
        c
    }
}

/// `str::to_ascii_lowercase`.
pub open spec fn ascii_lower(s: Seq<char>) -> Seq<char> {
    s.map_values(|c: char| lower_char(c))
}

pub fn lower(c: char) -> (r: char)
    ensures
        r == lower_char(c),
{
    if 'A' <= c && c <= 'Z' {
        let b = (c as u8) + 32;
        assert(b as char == ((c as u32) + 32) as char);
        b as char
    } else {
        c
    }
}

pub fn lowered(s: &[char]) -> (r: Vec<char>)
    ensures
        r@ == ascii_lower(s@),
{
    let mut r: Vec<char> = Vec::new();
    let mut i: usize = 0;
    while i < s.len()
        invariant
            i <= s@.len(),
            r@ == ascii_lower(s@.take(i as int)),
        decreases s@.len() - i,
    {
        r.push(lower(s[i]));
        assert(ascii_lower(s@.take(i + 1)) == ascii_lower(s@.take(i as int)).push(lower_char(s@[i as int])));
        i = i + 1;
    }
    assert(s@.take(s@.len() as int) == s@);
    r
}

/// Whether `p` is a prefix of `s`.
pub open spec fn has_prefix(s: Seq<char>, p: Seq<char>) -> bool {
    p.len() <= s.len() && s.take(p.len() as int) == p
}

/// Whether `p` is a suffix of `s`.
pub open spec fn has_suffix(s: Seq<char>, p: Seq<char>) -> bool {
    p.len() <= s.len() && s.skip(s.len() - p.len()) == p
}

/// `str::starts_with`.
pub fn starts_with(s: &[char], p: &[char]) -> (r: bool)
    ensures
        r == has_prefix(s@, p@),
{
    if p.len() > s.len() {
        return false;
    }
    let mut i: usize = 0;
    while i < p.len()
        invariant
            p@.len() <= s@.len(),
            i <= p@.len(),
            forall|j: int| 0 <= j < i ==> s@[j] == p@[j],
        decreases p@.len() - i,
    {
        if s[i] != p[i] {
            assert(s@.take(p@.len() as int)[i as int] != p@[i as int]);
            return false;
        }
        i = i + 1;
    }
    assert(s@.take(p@.len() as int) =~= p@);
    true
}

/// `str::ends_with`.
pub fn ends_with(s: &[char], p: &[char]) -> (r: bool)
    ensures
        r == has_suffix(s@, p@),
{
    if p.len() > s.len() {
        return false;
    }
    let n = s.len();
    let off = n - p.len();
    let mut i: usize = 0;
    while i < p.len()
        invariant
            n == s@.len(),
            p@.len() <= s@.len(),
            off == s@.len() - p@.len(),
            off + p@.len() == s@.len(),
            i <= p@.len(),
            forall|j: int| 0 <= j < i ==> s@[off + j] == p@[j],
        decreases p@.len() - i,
    {
        if s[off + i] != p[i] {
            assert(s@.skip(off as int)[i as int] != p@[i as int]);
            return false;
        }
        i = i + 1;
    }
    assert(s@.skip(off as int) =~= p@);
    true
}

/// `str::strip_prefix`.
pub open spec fn strip_prefix(s: Seq<char>, p: Seq<char>) -> Option<Seq<char>> {
    if has_prefix(s, p) {
        Some(s.skip(p.len() as int))
    } else {
        None
    }
}

/// `str::strip_suffix`.
pub open spec fn strip_suffix(s: Seq<char>, p: Seq<char>) -> Option<Seq<char>> {
    if has_suffix(s, p) {
        Some(s.take(s.len() - p.len()))
    } else {
        None
    }
}

pub fn stripped_prefix(s: &[char], p: &[char]) -> (r: Option<Vec<char>>)
    ensures
        r matches Some(v) ==> strip_prefix(s@, p@) == Some(v@),
        r is None ==> strip_prefix(s@, p@) is None,
{
    if starts_with(s, p) {
        Some(slice(s, p.len(), s.len()))
    } else {
        None
    }
}

pub fn stripped_suffix(s: &[char], p: &[char]) -> (r: Option<Vec<char>>)
    ensures
        r matches Some(v) ==> strip_suffix(s@, p@) == Some(v@),
        r is None ==> strip_suffix(s@, p@) is None,
{
    if ends_with(s, p) {
        Some(slice(s, 0, s.len() - p.len()))
    } else {
        None
    }
}

/// `i` is the position of the first `c` in `s`.
pub open spec fn is_first(s: Seq<char>, c: char, i: int) -> bool {
    0 <= i < s.len() && s[i] == c && forall|j: int| 0 <= j < i ==> s[j] != c
}

/// `i` is the position of the last `c` in `s`.
pub open spec fn is_last(s: Seq<char>, c: char, i: int) -> bool {
    0 <= i < s.len() && s[i] == c && forall|j: int| i < j < s.len() ==> s[j] != c
}

/// `str::split_once(c)`: the parts before and after the first `c`.
pub open spec fn split_once(s: Seq<char>, c: char) -> Option<(Seq<char>, Seq<char>)> {
    if has_char(s, c) {
        let i = choose|i: int| is_first(s, c, i);
        Some((s.take(i), s.skip(i + 1)))
    } else {
        None
    }
}

/// `str::rsplit_once(c)`: the parts before and after the last `c`.
pub open spec fn rsplit_once(s: Seq<char>, c: char) -> Option<(Seq<char>, Seq<char>)> {
    if has_char(s, c) {
        let i = choose|i: int| is_last(s, c, i);
        Some((s.take(i), s.skip(i + 1)))
    } else {
        None
    }
}

/// The part of `s` after its last `c`, or all of `s` without one
/// (`s.rsplit(c).next()`).
pub open spec fn after_last(s: Seq<char>, c: char) -> Seq<char> {
    match rsplit_once(s, c) {
        Some((_, rest)) => rest,
        None => s,
    }
}

/// `split_once` as executable code.
pub fn split_once_at(s: &[char], c: char) -> (r: Option<(Vec<char>, Vec<char>)>)
    ensures
        r matches Some((a, b)) ==> split_once(s@, c) == Some((a@, b@)),
        r is None ==> split_once(s@, c) is None,
{
    let n = s.len();
    match find_char(s, c) {
        Some(i) => {
            assert(is_first(s@, c, i as int));
            let ghost k = choose|k: int| is_first(s@, c, k);
            assert(k == i as int) by {
                if k < i as int {
                    assert(s@[k] != c);
                } else if k > i as int {
                    assert(s@[i as int] != c);
                }
            }
            Some((slice(s, 0, i), slice(s, i + 1, n)))
        },
        None => None,
    }
}

/// `rsplit_once` as executable code.
pub fn rsplit_once_at(s: &[char], c: char) -> (r: Option<(Vec<char>, Vec<char>)>)
    ensures
        r matches Some((a, b)) ==> rsplit_once(s@, c) == Some((a@, b@)),
        r is None ==> rsplit_once(s@, c) is None,
{
    let n = s.len();
    match rfind_char(s, c) {
        Some(i) => {
            assert(is_last(s@, c, i as int));
            let ghost k = choose|k: int| is_last(s@, c, k);
            assert(k == i as int) by {
                if k < i as int {
                    assert(s@[i as int] != c);
                } else if k > i as int {
                    assert(s@[k] != c);
                }
            }
            Some((slice(s, 0, i), slice(s, i + 1, n)))
        },
        None => None,
    }
}

/// Whether `s` contains `c`.
pub open spec fn has_char(s: Seq<char>, c: char) -> bool {
    exists|i: int| 0 <= i < s.len() && s[i] == c
}

/// Position of the first `c` in `s`.
pub fn find_char(s: &[char], c: char) -> (r: Option<usize>)
    ensures
        r matches Some(i) ==> i < s@.len() && s@[i as int] == c && forall|j: int|
            0 <= j < i ==> s@[j] != c,
        r is None ==> !has_char(s@, c),
{
    let mut i: usize = 0;
    while i < s.len()
        invariant
            i <= s@.len(),
            forall|j: int| 0 <= j < i ==> s@[j] != c,
        decreases s@.len() - i,
    {
        if s[i] == c {
            return Some(i);
        }
        i = i + 1;
    }
    None
}

/// Position of the last `c` in `s`.
pub fn rfind_char(s: &[char], c: char) -> (r: Option<usize>)
    ensures
        r matches Some(i) ==> i < s@.len() && s@[i as int] == c && forall|j: int|
            i < j < s@.len() ==> s@[j] != c,
        r is None ==> !has_char(s@, c),
{
    let mut i: usize = s.len();
    while i > 0
        invariant
            i <= s@.len(),
            forall|j: int| i <= j < s@.len() ==> s@[j] != c,
        decreases i,
    {
        if s[i - 1] == c {
            return Some(i - 1);
        }
        i = i - 1;
    }
    None
}

/// `str::contains(char)`.
pub fn contains_char(s: &[char], c: char) -> (r: bool)
    ensures
        r == has_char(s@, c),
{
    find_char(s, c).is_some()
}

/// Whether `p` occurs in `s` as a contiguous run.
pub open spec fn has_infix(s: Seq<char>, p: Seq<char>) -> bool {
    exists|i: int| 0 <= i && i + p.len() <= s.len() && #[trigger] s.subrange(i, i + p.len()) == p
}

/// `str::contains(&str)`.
pub fn contains_seq(s: &[char], p: &[char]) -> (r: bool)
    ensures
        r == has_infix(s@, p@),
{
    if p.len() > s.len() {
        return false;
    }
    if p.len() == 0 {
        assert(s@.subrange(0, 0 + p@.len() as int) =~= p@);
        return true;
    }
    let n = s.len();
    let last = n - p.len();
    let mut i: usize = 0;
    while i <= last
        invariant
            n == s@.len(),
            0 < p@.len() <= s@.len(),
            last == s@.len() - p@.len(),
            i <= last + 1,
            forall|k: int| 0 <= k < i ==> #[trigger] s@.subrange(k, k + p@.len()) != p@,
        decreases last + 1 - i,
    {
        let mut j: usize = 0;
        let mut ok = true;
        while j < p.len()
            invariant
                n == s@.len(),
                i <= last,
                last == s@.len() - p@.len(),
                j <= p@.len(),
                ok ==> forall|m: int| 0 <= m < j ==> s@[i + m] == p@[m],
                !ok ==> s@.subrange(i as int, i + p@.len()) != p@,
            decreases p@.len() - j,
        {
            if s[i + j] != p[j] {
                assert(s@.subrange(i as int, i + p@.len())[j as int] != p@[j as int]);
                ok = false;
            }
            j = j + 1;
        }
        if ok {
            assert(s@.subrange(i as int, i + p@.len()) =~= p@);
            return true;
        }
        i = i + 1;
    }
    assert forall|k: int| 0 <= k && k + p@.len() <= s@.len() implies #[trigger] s@.subrange(
        k,
        k + p@.len(),
    ) != p@ by {
        assert(k < i);
    }
    false
}

/// The ASCII digit for `d < 10`.
pub open spec fn digit_char(d: nat) -> char {
    if d == 0 { '0' }
    else if d == 1 { '1' }
    else if d == 2 { '2' }
    else if d == 3 { '3' }
    else if d == 4 { '4' }
    else if d == 5 { '5' }
    else if d == 6 { '6' }
    else if d == 7 { '7' }
    else if d == 8 { '8' }
    else { '9' }
}

/// The decimal rendering of `n` (`format!("{n}")`).
pub open spec fn decimal(n: nat) -> Seq<char>
    decreases n,
{
    if n < 10 {
        seq![digit_char(n)]
    } else {
        decimal(n / 10).push(digit_char(n % 10))
    }
}

fn digit(d: usize) -> (c: char)
    requires
        d < 10,
    ensures
        c == digit_char(d as nat),
{
    if d == 0 { '0' }
    else if d == 1 { '1' }
    else if d == 2 { '2' }
    else if d == 3 { '3' }
    else if d == 4 { '4' }
    else if d == 5 { '5' }
    else if d == 6 { '6' }
    else if d == 7 { '7' }
    else if d == 8 { '8' }
    else { '9' }
}

/// `prefix`, `middle` and `suffix` one after the other: a message that
/// quotes one value.
pub fn wrapped(prefix: &str, middle: &str, suffix: &str) -> (r: String)
    ensures
        r@ == prefix@ + middle@ + suffix@,
{
    let mut m = chars_of(prefix);
    append(&mut m, chars_of(middle).as_slice());
    append(&mut m, chars_of(suffix).as_slice());
    string_from(m.as_slice())
}

/// Different digits are different characters.
pub proof fn lemma_digit_char_injective(a: nat, b: nat)
    requires
        a < 10,
        b < 10,
        digit_char(a) == digit_char(b),
    ensures
        a == b,
{
}

/// A number has at least one digit, and two from ten on.
pub proof fn lemma_decimal_nonempty(n: nat)
    ensures
        decimal(n).len() >= 1,
        n >= 10 ==> decimal(n).len() >= 2,
    decreases n,
{
    if n >= 10 {
        lemma_decimal_nonempty(n / 10);
    }
}

/// Different numbers are written with different digits.
pub proof fn lemma_decimal_injective(a: nat, b: nat)
    requires
        decimal(a) == decimal(b),
    ensures
        a == b,
    decreases a,
{
    lemma_decimal_nonempty(a);
    lemma_decimal_nonempty(b);
    if a < 10 && b < 10 {
        assert(decimal(a)[0] == digit_char(a));
        assert(decimal(b)[0] == digit_char(b));
        lemma_digit_char_injective(a, b);
    } else if a >= 10 && b >= 10 {
        let da = decimal(a);
        let db = decimal(b);
        assert(da.last() == digit_char(a % 10));
        assert(db.last() == digit_char(b % 10));
        assert(da.last() == db.last());
        lemma_digit_char_injective(a % 10, b % 10);
        assert(da.drop_last() =~= decimal(a / 10));
        assert(db.drop_last() =~= decimal(b / 10));
        lemma_decimal_injective(a / 10, b / 10);
    }
}

/// The value of a digit character.
pub proof fn lemma_digit_value(k: nat)
    requires
        k < 10,
    ensures
        is_digit(digit_char(k)),
        (digit_char(k) as u32 - '0' as u32) as nat == k,
{
}

/// The decimal writing of a number consists of digits and reads back as
/// the number.
pub proof fn lemma_decimal_digits(n: nat)
    ensures
        decimal(n).len() >= 1,
        all_digits(decimal(n)),
        digits_value(decimal(n)) == n,
    decreases n,
{
    lemma_digit_value(n % 10);
    let d = decimal(n);
    if n < 10 {
        assert(d.drop_last() =~= Seq::<char>::empty());
        assert(d.last() == digit_char(n));
        assert(digits_value(d) == digits_value(d.drop_last()) * 10 + ((d.last() as u32) - ('0' as u32)) as nat);
    } else {
        lemma_decimal_digits(n / 10);
        assert(d.drop_last() =~= decimal(n / 10));
        assert(d.last() == digit_char(n % 10));
        assert(digits_value(d) == digits_value(d.drop_last()) * 10 + ((d.last() as u32) - ('0' as u32)) as nat);
        assert(n == (n / 10) * 10 + n % 10);
        assert forall|i: int| 0 <= i < d.len() implies is_digit(#[trigger] d[i]) by {
            if i < d.len() - 1 {
                assert(d[i] == decimal(n / 10)[i]);
            }
        }
    }
}

/// `n.to_string()` as characters.
pub fn decimal_chars(n: usize) -> (r: Vec<char>)
    ensures
        r@ == decimal(n as nat),
    decreases n,
{
    if n < 10 {
        vec![digit(n)]
    } else {
        let mut r = decimal_chars(n / 10);
        r.push(digit(n % 10));
        r
    }
}


/// `n.to_string()` for a 64-bit count.
pub fn decimal_u64_chars(n: u64) -> (r: Vec<char>)
    ensures
        r@ == decimal(n as nat),
    decreases n,
{
    if n < 10 {
        vec![digit(n as usize)]
    } else {
        let mut r = decimal_u64_chars(n / 10);
        r.push(digit((n % 10) as usize));
        r
    }
}

/// The decimal rendering of a signed number: a `-` before the digits of a
/// negative one.
pub open spec fn signed_decimal(n: int) -> Seq<char> {
    if n < 0 {
        seq!['-'] + decimal((-n) as nat)
    } else {
        decimal(n as nat)
    }
}

/// `n.to_string()` for an `i32`.
pub fn signed_decimal_chars(n: i32) -> (r: Vec<char>)
    ensures
        r@ == signed_decimal(n as int),
{
    if n < 0 {
        let m: i64 = -(n as i64);
        let mut r = vec!['-'];
        append(&mut r, decimal_u64_chars(m as u64).as_slice());
        r
    } else {
        decimal_u64_chars(n as u64)
    }
}

/// The character sequences of a list of strings.
pub open spec fn strings_view(v: Seq<String>) -> Seq<Seq<char>> {
    v.map_values(|s: String| s@)
}

/// The character sequences of a list of character vectors.
pub open spec fn chars_views(v: Seq<Vec<char>>) -> Seq<Seq<char>> {
    v.map_values(|p: Vec<char>| p@)
}

/// `parts` joined with `sep` between neighbours (`[..].join(sep)`).
pub open spec fn join(parts: Seq<Seq<char>>, sep: Seq<char>) -> Seq<char>
    decreases parts.len(),
{
    if parts.len() == 0 {
        Seq::empty()
    } else if parts.len() == 1 {
        parts[0]
    } else {
        join(parts.drop_last(), sep) + sep + parts.last()
    }
}

/// Joins character vectors with `sep` between neighbours.
pub fn join_chars(parts: &Vec<Vec<char>>, sep: &[char]) -> (r: Vec<char>)
    ensures
        r@ == join(chars_views(parts@), sep@),
{
    let ghost views = chars_views(parts@);
    let mut r: Vec<char> = Vec::new();
    let mut i: usize = 0;
    while i < parts.len()
        invariant
            i <= parts@.len(),
            views == chars_views(parts@),
            r@ == join(views.take(i as int), sep@),
        decreases parts@.len() - i,
    {
        assert(views.take(i + 1).drop_last() =~= views.take(i as int));
        if i > 0 {
            append(&mut r, sep);
        }
        let p = &parts[i];
        append(&mut r, p.as_slice());
        i = i + 1;
    }
    assert(views.take(parts@.len() as int) =~= views);
    r
}

/// Each name between `prefix` and `suffix`, one after another.
pub open spec fn framed(prefix: Seq<char>, names: Seq<String>, suffix: Seq<char>) -> Seq<char>
    decreases names.len(),
{
    if names.len() == 0 {
        Seq::empty()
    } else {
        framed(prefix, names.drop_last(), suffix) + prefix + names.last()@ + suffix
    }
}

/// Appends each name between `prefix` and `suffix` to `out`.
pub fn append_framed(out: &mut Vec<char>, prefix: &str, names: &[String], suffix: &str)
    ensures
        final(out)@ == old(out)@ + framed(prefix@, names@, suffix@),
{
    let ghost start = out@;
    let p = chars_of(prefix);
    let q = chars_of(suffix);
    let mut i: usize = 0;
    while i < names.len()
        invariant
            i <= names@.len(),
            p@ == prefix@,
            q@ == suffix@,
            out@ == start + framed(prefix@, names@.take(i as int), suffix@),
        decreases names@.len() - i,
    {
        assert(names@.take(i + 1).drop_last() =~= names@.take(i as int));
        append(out, p.as_slice());
        append(out, chars_of(names[i].as_str()).as_slice());
        append(out, q.as_slice());
        i = i + 1;
    }
    assert(names@.take(names@.len() as int) =~= names@);
}

/// Joins strings with `sep` between neighbours.
pub fn join_strings(parts: &Vec<String>, sep: &str) -> (r: String)
    ensures
        r@ == join(strings_view(parts@), sep@),
{
    let mut cs: Vec<Vec<char>> = Vec::new();
    let mut i: usize = 0;
    while i < parts.len()
        invariant
            i <= parts@.len(),
            cs@.len() == i,
            chars_views(cs@) == strings_view(parts@.take(i as int)),
        decreases parts@.len() - i,
    {
        let ghost before = cs@;
        let c = chars_of(parts[i].as_str());
        assert(c@ == parts@[i as int]@);
        cs.push(c);
        assert(cs@.len() == i + 1);
        assert forall|j: int| 0 <= j <= i implies #[trigger] chars_views(cs@)[j]
            == strings_view(parts@.take(i + 1))[j] by {
            assert(chars_views(cs@)[j] == cs@[j]@);
            assert(strings_view(parts@.take(i + 1))[j] == parts@[j]@);
            if j < i {
                assert(chars_views(before)[j] == strings_view(
                    parts@.take(i as int),
                )[j]);
            }
        }
        assert(chars_views(cs@) =~= strings_view(parts@.take(i + 1)));
        i = i + 1;
    }
    assert(parts@.take(parts@.len() as int) =~= parts@);
    let sep_chars = chars_of(sep);
    let r = join_chars(&cs, sep_chars.as_slice());
    string_from(r.as_slice())
}

/// Whether `c` is an ASCII decimal digit.
pub open spec fn is_digit(c: char) -> bool {
    '0' <= c && c <= '9'
}

/// Whether `s` consists of ASCII decimal digits only.
pub open spec fn all_digits(s: Seq<char>) -> bool {
    forall|i: int| 0 <= i < s.len() ==> is_digit(#[trigger] s[i])
}

/// The number written by the digits `s` (most significant first).
pub open spec fn digits_value(s: Seq<char>) -> nat
    decreases s.len(),
{
    if s.len() == 0 {
        0
    } else {
        digits_value(s.drop_last()) * 10 + ((s.last() as u32) - ('0' as u32)) as nat
    }
}

/// The digits of a number: `s` without one leading `+`.
pub open spec fn usize_body(s: Seq<char>) -> Seq<char> {
    if s.len() > 0 && s[0] == '+' {
        s.drop_first()
    } else {
        s
    }
}

/// What `str::parse::<usize>` accepts: an optional `+` followed by at least
/// one digit, and a value that fits.
pub open spec fn parse_usize_spec(s: Seq<char>) -> Option<nat> {
    let body = usize_body(s);
    if body.len() > 0 && all_digits(body) && digits_value(body) <= usize::MAX {
        Some(digits_value(body))
    } else {
        None
    }
}

proof fn lemma_digits_value_grows(s: Seq<char>, i: int, j: int)
    requires
        0 <= i <= j <= s.len(),
        all_digits(s),
    ensures
        digits_value(s.take(i)) <= digits_value(s.take(j)),
    decreases j - i,
{
    if i < j {
        lemma_digits_value_grows(s, i, j - 1);
        assert(s.take(j).drop_last() == s.take(j - 1));
        assert(is_digit(s[j - 1]));
    }
}

/// `str::parse::<usize>` on characters.
pub fn parse_usize(s: &[char]) -> (r: Option<usize>)
    ensures
        match r {
            Some(v) => parse_usize_spec(s@) == Some(v as nat),
            None => parse_usize_spec(s@) is None,
        },
{
    let n = s.len();
    let start: usize = if n > 0 && s[0] == '+' {
        1
    } else {
        0
    };
    let ghost body = usize_body(s@);
    assert(body =~= s@.skip(start as int));
    if start >= n {
        return None;
    }
    let mut v: usize = 0;
    let mut i: usize = start;
    while i < n
        invariant
            n == s@.len(),
            start <= i <= n,
            body == s@.skip(start as int),
            body == usize_body(s@),
            all_digits(body.take(i - start)),
            v as nat == digits_value(body.take(i - start)),
        decreases n - i,
    {
        let c = s[i];
        assert(body.take(i - start + 1).drop_last() =~= body.take(i - start));
        assert(body.take(i - start + 1).last() == c);
        if !('0' <= c && c <= '9') {
            assert(!is_digit(body[i - start]));
            return None;
        }
        let d = (c as u32 - '0' as u32) as usize;
        assert(digits_value(body.take(i - start + 1)) == digits_value(body.take(i - start)) * 10
            + d);
        match v.checked_mul(10) {
            Some(m) => match m.checked_add(d) {
                Some(w) => {
                    v = w;
                },
                None => {
                    proof {
                        assert(all_digits(body.take(i - start + 1)));
                        if all_digits(body) {
                            lemma_digits_value_grows(body, i - start + 1, body.len() as int);
                            assert(body.take(body.len() as int) =~= body);
                        }
                    }
                    return None;
                },
            },
            None => {
                proof {
                    assert(all_digits(body.take(i - start + 1)));
                    if all_digits(body) {
                        lemma_digits_value_grows(body, i - start + 1, body.len() as int);
                        assert(body.take(body.len() as int) =~= body);
                    }
                }
                return None;
            },
        }
        assert(all_digits(body.take(i - start + 1)));
        i = i + 1;
    }
    assert(body.take(i - start) =~= body);
    assert(all_digits(body));
    assert(body.len() > 0);
    assert(v as nat == digits_value(body));
    assert(parse_usize_spec(s@) == Some(digits_value(body)));
    Some(v)
}

/// The lower-case hexadecimal digit for `d < 16`.
pub open spec fn hex_digit(d: nat) -> char {
    if d < 10 {
        digit_char(d)
    } else if d == 10 {
        'a'
    } else if d == 11 {
        'b'
    } else if d == 12 {
        'c'
    } else if d == 13 {
        'd'
    } else if d == 14 {
        'e'
    } else {
        'f'
    }
}

/// The last `width` hexadecimal digits of `n`, zero-padded
/// (`format!("{n:0width$x}")` for `n < 16^width`).
pub open spec fn hex_fixed(n: nat, width: nat) -> Seq<char>
    decreases width,
{
    if width == 0 {
        Seq::empty()
    } else {
        hex_fixed(n / 16, (width - 1) as nat).push(hex_digit(n % 16))
    }
}

fn hex_digit_exec(d: u64) -> (c: char)
    requires
        d < 16,
    ensures
        c == hex_digit(d as nat),
{
    if d < 10 {
        digit(d as usize)
    } else if d == 10 {
        'a'
    } else if d == 11 {
        'b'
    } else if d == 12 {
        'c'
    } else if d == 13 {
        'd'
    } else if d == 14 {
        'e'
    } else {
        'f'
    }
}

/// `hex_fixed` computed.
pub fn hex_fixed_chars(n: u64, width: usize) -> (r: Vec<char>)
    ensures
        r@ == hex_fixed(n as nat, width as nat),
    decreases width,
{
    if width == 0 {
        Vec::new()
    } else {
        let mut r = hex_fixed_chars(n / 16, width - 1);
        r.push(hex_digit_exec(n % 16));
        r
    }
}

/// A path component appended to a directory path (`Path::join` with a
/// relative component): a `/` goes between them unless `base` is empty or
/// already ends with one.
pub open spec fn join_path(base: Seq<char>, component: Seq<char>) -> Seq<char> {
    if base.len() == 0 {
        component
    } else if base.last() == '/' {
        base + component
    } else {
        base + seq!['/'] + component
    }
}

/// `join_path` computed.
pub fn join_path_chars(base: &[char], component: &[char]) -> (r: Vec<char>)
    ensures
        r@ == join_path(base@, component@),
{
    let mut r: Vec<char> = Vec::new();
    append(&mut r, base);
    let n = base.len();
    if n > 0 && base[n - 1] != '/' {
        r.push('/');
    }
    append(&mut r, component);
    r
}

/// The parts `split_once` gives are shorter than what they come from, and
/// put back together around `c` give it again.
pub proof fn lemma_split_once_parts(s: Seq<char>, c: char)
    ensures
        split_once(s, c) matches Some((a, b)) ==> a.len() < s.len() && b.len() < s.len() && s
            == a + seq![c] + b,
{
    if has_char(s, c) {
        let i = choose|i: int| is_first(s, c, i);
        assert(is_first(s, c, i)) by {
            let j = choose|j: int| 0 <= j < s.len() && s[j] == c;
            lemma_first_exists(s, c, j);
        }
        assert(s =~= s.take(i) + seq![c] + s.skip(i + 1));
    }
}

proof fn lemma_first_exists(s: Seq<char>, c: char, j: int)
    requires
        0 <= j < s.len(),
        s[j] == c,
    ensures
        exists|i: int| is_first(s, c, i),
    decreases j,
{
    if exists|k: int| 0 <= k < j && s[k] == c {
        let k = choose|k: int| 0 <= k < j && s[k] == c;
        lemma_first_exists(s, c, k);
    } else {
        assert(is_first(s, c, j));
    }
}

/// A line without its `\r`, when it ended in `\r\n`.
pub open spec fn without_cr(l: Seq<char>) -> Seq<char> {
    if l.len() > 0 && l.last() == '\r' {
        l.drop_last()
    } else {
        l
    }
}

/// The lines of `s` as `str::lines` splits them: at each `\n` (dropping a
/// `\r` before it), with no empty line after a final `\n`.
pub open spec fn lines(s: Seq<char>) -> Seq<Seq<char>>
    decreases s.len(),
{
    if s.len() == 0 {
        Seq::empty()
    } else {
        match split_once(s, '\n') {
            Some((l, rest)) => {
                proof {
                    lemma_split_once_parts(s, '\n');
                }
                seq![without_cr(l)] + lines(rest)
            },
            None => seq![s],
        }
    }
}

/// `str::lines`.
pub fn lines_of(s: &[char]) -> (r: Vec<Vec<char>>)
    ensures
        chars_views(r@) == lines(s@),
{
    let mut out: Vec<Vec<char>> = Vec::new();
    let mut rest: Vec<char> = Vec::new();
    append(&mut rest, s);
    loop
        invariant
            lines(s@) == chars_views(out@) + lines(rest@),
        decreases rest@.len(),
    {
        if rest.len() == 0 {
            assert(chars_views(out@) + lines(rest@) =~= chars_views(out@));
            return out;
        }
        proof {
            lemma_split_once_parts(rest@, '\n');
        }
        let ghost ov = chars_views(out@);
        match split_once_at(rest.as_slice(), '\n') {
            Some((l, tail)) => {
                let n = l.len();
                let line = if n > 0 && l[n - 1] == '\r' {
                    slice(l.as_slice(), 0, n - 1)
                } else {
                    l
                };
                assert(line@ == without_cr(split_once(rest@, '\n')->Some_0.0)) by {
                    let x = split_once(rest@, '\n')->Some_0.0;
                    if x.len() > 0 && x.last() == '\r' {
                        assert(x.take(x.len() - 1) =~= x.drop_last());
                    }
                }
                out.push(line);
                assert(chars_views(out@) =~= ov.push(line@));
                assert(ov.push(line@) + lines(tail@) =~= ov + (seq![line@] + lines(tail@)));
                rest = tail;
            },
            None => {
                let ghost rv = rest@;
                out.push(rest);
                assert(chars_views(out@) =~= ov.push(rv));
                assert(ov + lines(rv) =~= chars_views(out@));
                return out;
            },
        }
    }
}

} // verus!

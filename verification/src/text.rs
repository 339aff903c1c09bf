//! Character-level helpers shared by the rest of the crate.
//!
//! Every contract in this crate speaks of a string through its view, a
//! `Seq<char>`. The functions here move between `&str`, `String` and
//! `Vec<char>`, and implement the small amount of text processing the
//! supervisor needs: trimming, decimal numbers, ASCII case folding, substring
//! search, lexicographic order and path joining.

use vstd::prelude::*;

verus! {

/// `String::push` appends exactly one character to the end of the string.
pub assume_specification[ String::push ](s: &mut String, ch: char)
    ensures
        final(s)@ == old(s)@.push(ch),
;

/// Whether a character has the Unicode `White_Space` property, as
/// `char::is_whitespace` reports it.
pub uninterp spec fn white_space(c: char) -> bool;

/// `char::is_whitespace` is a function of the character alone; its result is
/// what this crate calls `white_space`.
pub assume_specification[ char::is_whitespace ](c: char) -> (b: bool)
    ensures
        b == white_space(c),
;

/// The views of a sequence of strings, element by element.
pub open spec fn texts(v: Seq<String>) -> Seq<Seq<char>> {
    Seq::new(v.len(), |i: int| v[i]@)
}

/// The view of a value that may be absent.
pub open spec fn option_view<T: View>(value: Option<T>) -> Option<T::V> {
    match value {
        Some(v) => Some(v@),
        None => None,
    }
}

/// The view of a result: the view of what it carries, on either side.
pub open spec fn result_view<T: View, E: View>(result: Result<T, E>) -> Result<T::V, E::V> {
    match result {
        Ok(value) => Ok(value@),
        Err(error) => Err(error@),
    }
}

/// The characters of `s`, in order.
pub fn chars_of(s: &str) -> (v: Vec<char>)
    ensures
        v@ == s@,
{
    let mut v: Vec<char> = Vec::new();
    for c in it: s.chars()
        invariant
            v@ == it.seq().take(it.index() as int),
            it.seq() == s@,
    {
        v.push(c);
    }
    v
}

/// The string made of `chars[from..to]`.
pub fn string_of_range(chars: &Vec<char>, from: usize, to: usize) -> (s: String)
    requires
        from <= to <= chars.len(),
    ensures
        s@ == chars@.subrange(from as int, to as int),
{
    let mut s = String::new();
    let mut i: usize = from;
    while i < to
        invariant
            from <= i <= to <= chars.len(),
            s@ == chars@.subrange(from as int, i as int),
        decreases to - i,
    {
        s.push(chars[i]);
        i += 1;
        assert(chars@.subrange(from as int, i as int) == chars@.subrange(
            from as int,
            i as int - 1,
        ).push(chars@[i as int - 1]));
    }
    s
}

/// The string made of all of `chars`.
pub fn string_of(chars: &Vec<char>) -> (s: String)
    ensures
        s@ == chars@,
{
    let s = string_of_range(chars, 0, chars.len());
    s
}

/// `a` followed by `b`.
pub fn concat(a: &str, b: &str) -> (s: String)
    ensures
        s@ == a@ + b@,
{
    let mut s = String::from_str(a);
    s.append(b);
    s
}

/// `a`, `b` and `c` in a row.
pub fn concat3(a: &str, b: &str, c: &str) -> (s: String)
    ensures
        s@ == a@ + b@ + c@,
{
    let mut s = String::from_str(a);
    s.append(b);
    s.append(c);
    s
}

/// Whether two strings hold the same characters.
pub fn same_text(a: &str, b: &str) -> (same: bool)
    ensures
        same == (a@ == b@),
{
    let x = chars_of(a);
    let y = chars_of(b);
    if x.len() != y.len() {
        return false;
    }
    let mut i: usize = 0;
    while i < x.len()
        invariant
            i <= x.len(),
            x.len() == y.len(),
            x@ == a@,
            y@ == b@,
            forall|k: int| 0 <= k < i ==> x@[k] == y@[k],
        decreases x.len() - i,
    {
        if x[i] != y[i] {
            return false;
        }
        i += 1;
    }
    assert(x@ =~= y@);
    true
}

// ---------------------------------------------------------------------------
// Trimming
// ---------------------------------------------------------------------------

/// What a trim removes from the two ends of a string.
#[derive(Clone, Copy, Debug, PartialEq, Eq, Structural)]
pub enum Strip {
    /// Characters with the Unicode `White_Space` property.
    Whitespace,
    /// The double quote `"`.
    Quotes,
}

impl Strip {
    /// Whether this kind of trim removes `c`.
    pub open spec fn removes(self, c: char) -> bool {
        match self {
            Strip::Whitespace => white_space(c),
            Strip::Quotes => c == '"',
        }
    }

    /// Whether this kind of trim removes `c`.
    pub fn strips(self, c: char) -> (hit: bool)
        ensures
            hit == self.removes(c),
    {
        match self {
            Strip::Whitespace => c.is_whitespace(),
            Strip::Quotes => c == '"',
        }
    }
}

/// `s` without the leading characters that `strip` removes.
pub open spec fn strip_start(s: Seq<char>, strip: Strip) -> Seq<char>
    decreases s.len(),
{
    if s.len() > 0 && strip.removes(s[0]) {
        strip_start(s.drop_first(), strip)
    } else {
        s
    }
}

/// `s` without the trailing characters that `strip` removes.
pub open spec fn strip_end(s: Seq<char>, strip: Strip) -> Seq<char>
    decreases s.len(),
{
    if s.len() > 0 && strip.removes(s.last()) {
        strip_end(s.drop_last(), strip)
    } else {
        s
    }
}

/// `s` without the characters that `strip` removes at either end.
pub open spec fn strip_both(s: Seq<char>, strip: Strip) -> Seq<char> {
    strip_end(strip_start(s, strip), strip)
}

/// `s` without leading and trailing whitespace.
pub open spec fn trim_spec(s: Seq<char>) -> Seq<char> {
    strip_both(s, Strip::Whitespace)
}

/// If the first `k` characters are removed by `strip` and the next one (if
/// any) is not, stripping the start leaves `s[k..]`.
pub proof fn lemma_strip_start(s: Seq<char>, strip: Strip, k: int)
    requires
        0 <= k <= s.len(),
        forall|i: int| 0 <= i < k ==> strip.removes(s[i]),
        k < s.len() ==> !strip.removes(s[k]),
    ensures
        strip_start(s, strip) == s.subrange(k, s.len() as int),
    decreases k,
{
    if k > 0 {
        let t = s.drop_first();
        assert forall|i: int| 0 <= i < k - 1 implies strip.removes(t[i]) by {}
        lemma_strip_start(t, strip, k - 1);
    }
}

/// If everything from `k` on is removed by `strip` and the character before
/// `k` (if any) is not, stripping the end leaves `s[..k]`.
pub proof fn lemma_strip_end(s: Seq<char>, strip: Strip, k: int)
    requires
        0 <= k <= s.len(),
        forall|i: int| k <= i < s.len() ==> strip.removes(s[i]),
        k > 0 ==> !strip.removes(s[k - 1]),
    ensures
        strip_end(s, strip) == s.subrange(0, k),
    decreases s.len() - k,
{
    if k < s.len() {
        lemma_strip_end(s.drop_last(), strip, k);
    }
}

/// The bounds of the stripped part of `chars[lo..hi]`: `chars[from..to]` is
/// what `strip` leaves of it.
pub fn strip_bounds(chars: &Vec<char>, lo: usize, hi: usize, strip: Strip) -> (bounds: (
    usize,
    usize,
))
    requires
        lo <= hi <= chars.len(),
    ensures
        lo <= bounds.0 <= bounds.1 <= hi,
        chars@.subrange(bounds.0 as int, bounds.1 as int) == strip_both(
            chars@.subrange(lo as int, hi as int),
            strip,
        ),
{
    let mut from: usize = lo;
    while from < hi && strip.strips(chars[from])
        invariant
            lo <= from <= hi <= chars.len(),
            forall|i: int| lo <= i < from ==> strip.removes(chars@[i]),
        decreases hi - from,
    {
        from += 1;
    }
    let mut to: usize = hi;
    while to > from && strip.strips(chars[to - 1])
        invariant
            from <= to <= hi <= chars.len(),
            forall|i: int| to <= i < hi ==> strip.removes(chars@[i]),
        decreases to,
    {
        to -= 1;
    }
    proof {
        let s = chars@.subrange(lo as int, hi as int);
        assert forall|i: int| 0 <= i < from - lo implies strip.removes(s[i]) by {}
        lemma_strip_start(s, strip, from - lo);
        let t = s.subrange(from - lo, s.len() as int);
        assert forall|i: int| to - from <= i < t.len() implies strip.removes(t[i]) by {}
        lemma_strip_end(t, strip, to - from);
    }
    (from, to)
}

/// `s` without leading and trailing whitespace.
pub fn trim(s: &str) -> (t: String)
    ensures
        t@ == trim_spec(s@),
{
    let chars = chars_of(s);
    assert(chars@.subrange(0, chars@.len() as int) == chars@);
    let (from, to) = strip_bounds(&chars, 0, chars.len(), Strip::Whitespace);
    string_of_range(&chars, from, to)
}

// ---------------------------------------------------------------------------
// Decimal numbers
// ---------------------------------------------------------------------------

/// The character that writes the digit `d`.
pub open spec fn digit_char(d: nat) -> char {
    if d == 0 {
        '0'
    } else if d == 1 {
        '1'
    } else if d == 2 {
        '2'
    } else if d == 3 {
        '3'
    } else if d == 4 {
        '4'
    } else if d == 5 {
        '5'
    } else if d == 6 {
        '6'
    } else if d == 7 {
        '7'
    } else if d == 8 {
        '8'
    } else {
        '9'
    }
}

/// The digit that `c` writes, if it is one of `0` to `9`.
pub open spec fn digit_value(c: char) -> Option<nat> {
    if c == '0' {
        Some(0)
    } else if c == '1' {
        Some(1)
    } else if c == '2' {
        Some(2)
    } else if c == '3' {
        Some(3)
    } else if c == '4' {
        Some(4)
    } else if c == '5' {
        Some(5)
    } else if c == '6' {
        Some(6)
    } else if c == '7' {
        Some(7)
    } else if c == '8' {
        Some(8)
    } else if c == '9' {
        Some(9)
    } else {
        None
    }
}

/// The decimal notation of `n`, without sign or leading zeros.
pub open spec fn decimal(n: nat) -> Seq<char>
    decreases n,
{
    if n < 10 {
        seq![digit_char(n)]
    } else {
        decimal(n / 10).push(digit_char(n % 10))
    }
}

/// The number that a non-empty run of decimal digits writes; `None` where
/// `s` is empty or holds anything but digits.
pub open spec fn digits_value(s: Seq<char>) -> Option<nat>
    decreases s.len(),
{
    if s.len() == 0 {
        None
    } else {
        match digit_value(s.last()) {
            None => None,
            Some(d) => if s.len() == 1 {
                Some(d)
            } else {
                match digits_value(s.drop_last()) {
                    None => None,
                    Some(h) => Some(h * 10 + d),
                }
            },
        }
    }
}

/// Reading back the decimal notation of a number gives that number.
pub proof fn lemma_decimal_round_trip(n: nat)
    ensures
        digits_value(decimal(n)) == Some(n),
        decimal(n).len() > 0,
    decreases n,
{
    if n >= 10 {
        lemma_decimal_round_trip(n / 10);
        assert(decimal(n).drop_last() == decimal(n / 10));
    }
}

fn digit_of(d: u64) -> (c: char)
    requires
        d < 10,
    ensures
        c == digit_char(d as nat),
{
    if d == 0 {
        '0'
    } else if d == 1 {
        '1'
    } else if d == 2 {
        '2'
    } else if d == 3 {
        '3'
    } else if d == 4 {
        '4'
    } else if d == 5 {
        '5'
    } else if d == 6 {
        '6'
    } else if d == 7 {
        '7'
    } else if d == 8 {
        '8'
    } else {
        '9'
    }
}

fn value_of(c: char) -> (d: Option<u64>)
    ensures
        match d {
            Some(v) => digit_value(c) == Some(v as nat) && v < 10,
            None => digit_value(c) is None,
        },
{
    if c == '0' {
        Some(0)
    } else if c == '1' {
        Some(1)
    } else if c == '2' {
        Some(2)
    } else if c == '3' {
        Some(3)
    } else if c == '4' {
        Some(4)
    } else if c == '5' {
        Some(5)
    } else if c == '6' {
        Some(6)
    } else if c == '7' {
        Some(7)
    } else if c == '8' {
        Some(8)
    } else if c == '9' {
        Some(9)
    } else {
        None
    }
}

/// Appends the decimal notation of `n` to `out`.
pub fn push_decimal(out: &mut String, n: u64)
    ensures
        final(out)@ == old(out)@ + decimal(n as nat),
    decreases n,
{
    if n < 10 {
        out.push(digit_of(n));
    } else {
        push_decimal(out, n / 10);
        out.push(digit_of(n % 10));
        assert((old(out)@ + decimal((n / 10) as nat)).push(digit_char((n % 10) as nat)) == old(
            out,
        )@ + decimal(n as nat));
    }
}

/// The decimal notation of `n`.
pub fn decimal_string(n: u64) -> (s: String)
    ensures
        s@ == decimal(n as nat),
{
    let mut s = String::new();
    push_decimal(&mut s, n);
    s
}

/// A longer run of digits never writes a smaller number than its prefix.
pub proof fn lemma_digits_value_grows(s: Seq<char>, k: int)
    requires
        0 < k <= s.len(),
        digits_value(s) is Some,
    ensures
        digits_value(s.subrange(0, k)) is Some,
        digits_value(s.subrange(0, k))->0 <= digits_value(s)->0,
    decreases s.len() - k,
{
    if k == s.len() {
        assert(s.subrange(0, k) == s);
    } else {
        let t = s.drop_last();
        lemma_digits_value_grows(t, k);
        assert(t.subrange(0, k) == s.subrange(0, k));
    }
}

/// Reads `chars[from..to]` as a run of decimal digits. The result is the
/// number written, where there is one and it does not exceed `limit`.
pub fn parse_digits(chars: &Vec<char>, from: usize, to: usize, limit: u64) -> (value: Option<u64>)
    requires
        from <= to <= chars.len(),
    ensures
        match value {
            Some(v) => v <= limit && digits_value(chars@.subrange(from as int, to as int)) == Some(
                v as nat,
            ),
            None => match digits_value(chars@.subrange(from as int, to as int)) {
                Some(n) => n > limit,
                None => true,
            },
        },
{
    if from == to {
        return None;
    }
    let ghost whole = chars@.subrange(from as int, to as int);
    let mut acc: u64 = 0;
    let mut i: usize = from;
    while i < to
        invariant
            from <= i <= to <= chars.len(),
            from < to,
            acc <= limit,
            whole == chars@.subrange(from as int, to as int),
            i > from ==> digits_value(chars@.subrange(from as int, i as int)) == Some(
                acc as nat,
            ),
            i == from ==> acc == 0,
        decreases to - i,
    {
        let ghost before = chars@.subrange(from as int, i as int);
        let ghost after = chars@.subrange(from as int, i as int + 1);
        proof {
            assert(after.drop_last() == before);
            assert(after == whole.subrange(0, i + 1 - from));
        }
        match value_of(chars[i]) {
            None => {
                proof {
                    if digits_value(whole) is Some {
                        lemma_digits_value_grows(whole, i + 1 - from);
                    }
                }
                return None;
            },
            Some(d) => {
                let next: u128 = (acc as u128) * 10 + (d as u128);
                if next > limit as u128 {
                    proof {
                        if digits_value(whole) is Some {
                            lemma_digits_value_grows(whole, i + 1 - from);
                        }
                    }
                    return None;
                }
                acc = next as u64;
            },
        }
        i += 1;
    }
    Some(acc)
}

// ---------------------------------------------------------------------------
// ASCII case
// ---------------------------------------------------------------------------

/// The ASCII lower-case form of `c`: `A` to `Z` become `a` to `z`, every
/// other character stays as it is.
pub open spec fn ascii_lower(c: char) -> char {
    if 'A' <= c && c <= 'Z' {
        ((c as u8 + 32) as u8) as char
    } else {
        c
    }
}

/// `s` with every character in ASCII lower case.
pub open spec fn lowercase(s: Seq<char>) -> Seq<char> {
    Seq::new(s.len(), |i: int| ascii_lower(s[i]))
}

/// The ASCII lower-case form of `c`.
pub fn to_ascii_lower(c: char) -> (l: char)
    ensures
        l == ascii_lower(c),
{
    if 'A' <= c && c <= 'Z' {
        ((c as u8) + 32) as char
    } else {
        c
    }
}

/// `s` in ASCII lower case.
pub fn to_lowercase(s: &str) -> (l: String)
    ensures
        l@ == lowercase(s@),
{
    let chars = chars_of(s);
    let mut out = String::new();
    let mut i: usize = 0;
    while i < chars.len()
        invariant
            i <= chars.len(),
            chars@ == s@,
            out@ == lowercase(s@).subrange(0, i as int),
        decreases chars.len() - i,
    {
        out.push(to_ascii_lower(chars[i]));
        i += 1;
        assert(lowercase(s@).subrange(0, i as int) == lowercase(s@).subrange(0, i as int - 1).push(
            ascii_lower(s@[i as int - 1]),
        ));
    }
    out
}

// ---------------------------------------------------------------------------
// Prefixes and substrings
// ---------------------------------------------------------------------------

/// Whether `s` begins with `prefix`.
pub open spec fn has_prefix(s: Seq<char>, prefix: Seq<char>) -> bool {
    prefix.len() <= s.len() && s.subrange(0, prefix.len() as int) == prefix
}

/// Whether `needle` occurs in `hay` at position `at`.
pub open spec fn occurs_at(hay: Seq<char>, needle: Seq<char>, at: int) -> bool {
    0 <= at && at + needle.len() <= hay.len() && hay.subrange(at, at + needle.len()) == needle
}

/// Whether `needle` occurs somewhere in `hay`. The empty string occurs in
/// every string.
pub open spec fn has_substring(hay: Seq<char>, needle: Seq<char>) -> bool {
    exists|at: int| occurs_at(hay, needle, at)
}

/// Whether `needle` occurs in `hay` at position `at`.
pub fn matches_at(hay: &Vec<char>, needle: &Vec<char>, at: usize) -> (hit: bool)
    requires
        at + needle.len() <= hay.len(),
    ensures
        hit == occurs_at(hay@, needle@, at as int),
{
    let mut j: usize = 0;
    while j < needle.len()
        invariant
            j <= needle.len(),
            at + needle.len() <= hay.len(),
            forall|k: int| 0 <= k < j ==> hay@[at + k] == needle@[k],
        decreases needle.len() - j,
    {
        if hay[at + j] != needle[j] {
            assert(hay@.subrange(at as int, at + needle@.len())[j as int] != needle@[j as int]);
            return false;
        }
        j += 1;
    }
    assert(hay@.subrange(at as int, at + needle@.len()) =~= needle@);
    true
}

/// Whether `s` begins with `prefix`.
pub fn starts_with(s: &str, prefix: &str) -> (hit: bool)
    ensures
        hit == has_prefix(s@, prefix@),
{
    let hay = chars_of(s);
    let needle = chars_of(prefix);
    if needle.len() > hay.len() {
        return false;
    }
    matches_at(&hay, &needle, 0)
}

/// Whether `needle` occurs somewhere in `hay`.
pub fn contains(hay: &str, needle: &str) -> (hit: bool)
    ensures
        hit == has_substring(hay@, needle@),
{
    let h = chars_of(hay);
    let n = chars_of(needle);
    if n.len() > h.len() {
        assert forall|at: int| !occurs_at(h@, n@, at) by {}
        return false;
    }
    let last = h.len() - n.len();
    let mut at: usize = 0;
    while at < last
        invariant
            at <= last,
            last == h.len() - n.len(),
            n.len() <= h.len(),
            h@ == hay@,
            n@ == needle@,
            forall|k: int| 0 <= k < at ==> !occurs_at(h@, n@, k),
        decreases last - at,
    {
        if matches_at(&h, &n, at) {
            return true;
        }
        at += 1;
    }
    let hit = matches_at(&h, &n, last);
    if !hit {
        assert forall|k: int| !occurs_at(h@, n@, k) by {}
    }
    hit
}

// ---------------------------------------------------------------------------
// Lexicographic order
// ---------------------------------------------------------------------------

/// Whether `a[i..]` comes strictly before `b[i..]` in lexicographic order by
/// code point.
pub open spec fn lex_less_from(a: Seq<char>, b: Seq<char>, i: int) -> bool
    decreases a.len() - i,
{
    if i < 0 || i >= b.len() {
        false
    } else if i >= a.len() {
        true
    } else if a[i] != b[i] {
        a[i] < b[i]
    } else {
        lex_less_from(a, b, i + 1)
    }
}

/// Whether `a` comes strictly before `b` in lexicographic order by code
/// point, the order of `str`.
pub open spec fn lex_less(a: Seq<char>, b: Seq<char>) -> bool {
    lex_less_from(a, b, 0)
}

/// No string comes before itself.
pub proof fn lemma_lex_irreflexive(a: Seq<char>, i: int)
    requires
        0 <= i,
    ensures
        !lex_less_from(a, a, i),
    decreases a.len() - i,
{
    if i < a.len() {
        lemma_lex_irreflexive(a, i + 1);
    }
}

/// The order is transitive.
pub proof fn lemma_lex_transitive(a: Seq<char>, b: Seq<char>, c: Seq<char>, i: int)
    requires
        0 <= i,
        lex_less_from(a, b, i),
        lex_less_from(b, c, i),
    ensures
        lex_less_from(a, c, i),
    decreases a.len() - i,
{
    if i < a.len() && i < b.len() && i < c.len() {
        if a[i] == b[i] && b[i] == c[i] {
            lemma_lex_transitive(a, b, c, i + 1);
        }
    }
}

/// Of two different strings one comes before the other.
pub proof fn lemma_lex_total(a: Seq<char>, b: Seq<char>, i: int)
    requires
        0 <= i <= a.len(),
        i <= b.len(),
        !lex_less_from(a, b, i),
        !lex_less_from(b, a, i),
    ensures
        a.subrange(i, a.len() as int) == b.subrange(i, b.len() as int),
    decreases a.len() - i,
{
    if i < a.len() && i < b.len() {
        lemma_lex_total(a, b, i + 1);
        assert(a.subrange(i, a.len() as int) =~= seq![a[i]] + a.subrange(i + 1, a.len() as int));
    }
}

/// Whether `a` comes strictly before `b` in lexicographic order.
pub fn is_lex_less(a: &Vec<char>, b: &Vec<char>) -> (less: bool)
    ensures
        less == lex_less(a@, b@),
{
    let mut i: usize = 0;
    while i < a.len() && i < b.len()
        invariant
            i <= a.len(),
            i <= b.len(),
            lex_less(a@, b@) == lex_less_from(a@, b@, i as int),
        decreases a.len() - i,
    {
        if a[i] != b[i] {
            return a[i] < b[i];
        }
        i += 1;
    }
    i < b.len()
}

// ---------------------------------------------------------------------------
// Paths
// ---------------------------------------------------------------------------

/// `name` appended to the directory `base`: a `/` is put between the two
/// unless `base` is empty or already ends in one.
pub open spec fn join_spec(base: Seq<char>, name: Seq<char>) -> Seq<char> {
    if base.len() == 0 {
        name
    } else if base.last() == '/' {
        base + name
    } else {
        base.push('/') + name
    }
}

/// The path of `name` inside the directory `base`. `name` is taken as a
/// relative path.
pub fn join_path(base: &str, name: &str) -> (path: String)
    ensures
        path@ == join_spec(base@, name@),
{
    let b = chars_of(base);
    if b.len() == 0 {
        String::from_str(name)
    } else if b[b.len() - 1] == '/' {
        concat(base, name)
    } else {
        let path = concat3(base, "/", name);
        proof {
            reveal_strlit("/");
        }
        path
    }
}

/// The position just after the last `/` of `path`, or 0 where it holds none.
pub open spec fn after_last_slash(path: Seq<char>) -> int
    decreases path.len(),
{
    if path.len() == 0 {
        0
    } else if path.last() == '/' {
        path.len() as int
    } else {
        after_last_slash(path.drop_last())
    }
}

/// The last component of `path`: what follows its last `/`.
pub open spec fn base_name_spec(path: Seq<char>) -> Seq<char> {
    path.subrange(after_last_slash(path), path.len() as int)
}

/// If `k` is 0 or follows a `/`, and no `/` stands at or after `k`, then `k`
/// is the position just after the last `/`.
pub proof fn lemma_after_last_slash_is(path: Seq<char>, k: int)
    requires
        0 <= k <= path.len(),
        k > 0 ==> path[k - 1] == '/',
        forall|i: int| k <= i < path.len() ==> path[i] != '/',
    ensures
        after_last_slash(path) == k,
    decreases path.len() - k,
{
    if k < path.len() {
        lemma_after_last_slash_is(path.drop_last(), k);
    }
}

/// The last component of `path`: what follows its last `/`.
pub fn base_name(path: &str) -> (name: String)
    ensures
        name@ == base_name_spec(path@),
{
    let chars = chars_of(path);
    let mut k: usize = chars.len();
    while k > 0 && chars[k - 1] != '/'
        invariant
            k <= chars.len(),
            forall|i: int| k <= i < chars.len() ==> chars@[i] != '/',
        decreases k,
    {
        k -= 1;
    }
    proof {
        lemma_after_last_slash_is(chars@, k as int);
    }
    string_of_range(&chars, k, chars.len())
}

// ---------------------------------------------------------------------------
// Lists of strings
// ---------------------------------------------------------------------------

/// Pushing a string onto a list pushes its view onto the list's views.
pub proof fn lemma_texts_push(v: Seq<String>, s: String)
    ensures
        texts(v.push(s)) == texts(v).push(s@),
{
}

/// A copy of a list of strings.
pub fn clone_texts(list: &Vec<String>) -> (copy: Vec<String>)
    ensures
        texts(copy@) == texts(list@),
{
    let mut copy: Vec<String> = Vec::new();
    append_texts(&mut copy, list);
    copy
}

/// Appends copies of the strings of `more` to `list`.
pub fn append_texts(list: &mut Vec<String>, more: &Vec<String>)
    ensures
        texts(final(list)@) == texts(old(list)@) + texts(more@),
{
    let mut i: usize = 0;
    while i < more.len()
        invariant
            i <= more.len(),
            texts(list@) == texts(old(list)@) + texts(more@).subrange(0, i as int),
        decreases more.len() - i,
    {
        let ghost before = list@;
        let item = more[i].clone();
        list.push(item);
        i += 1;
        proof {
            lemma_texts_push(before, item);
            assert(texts(more@).subrange(0, i as int) =~= texts(more@).subrange(0, i - 1).push(
                more@[i - 1]@,
            ));
        }
    }
}

/// The decimal notation of an integer, with a minus sign where it is
/// negative.
pub open spec fn signed_decimal(n: int) -> Seq<char> {
    if n < 0 {
        seq!['-'] + decimal((-n) as nat)
    } else {
        decimal(n as nat)
    }
}

/// The decimal notation of `n`.
pub fn signed_decimal_string(n: i32) -> (s: String)
    ensures
        s@ == signed_decimal(n as int),
{
    if n < 0 {
        let mut s = String::new();
        s.push('-');
        let magnitude: u64 = (-(n as i64)) as u64;
        push_decimal(&mut s, magnitude);
        s
    } else {
        decimal_string(n as u64)
    }
}

} // verus!

//! Character-level building blocks: character classes, trimming, searching,
//! splitting and decimal numbers, each specified over `Seq<char>`.

use vstd::prelude::*;
use vstd::string::StringExecFns;

verus! {

/// A set of characters that a trimming or splitting operation removes.
#[derive(Clone, Copy, Debug)]
pub enum CharClass {
    /// Every character with the Unicode property `White_Space`.
    Blank,
    /// Space, tab, line feed, form feed and carriage return.
    AsciiBlank,
    /// One given character.
    Only(char),
}

/// The characters with the Unicode property `White_Space`.
pub open spec fn is_unicode_space(c: char) -> bool {
    let u = c as u32;
    ||| 0x09 <= u <= 0x0D
    ||| u == 0x20
    ||| u == 0x85
    ||| u == 0xA0
    ||| u == 0x1680
    ||| 0x2000 <= u <= 0x200A
    ||| u == 0x2028
    ||| u == 0x2029
    ||| u == 0x202F
    ||| u == 0x205F
    ||| u == 0x3000
}

/// Space, tab, line feed, form feed and carriage return.
pub open spec fn is_ascii_space(c: char) -> bool {
    c == ' ' || c == '\t' || c == '\n' || c == '\x0C' || c == '\r'
}

impl CharClass {
    /// Whether `c` belongs to the class.
    pub open spec fn has(self, c: char) -> bool {
        match self {
            CharClass::Blank => is_unicode_space(c),
            CharClass::AsciiBlank => is_ascii_space(c),
            CharClass::Only(x) => c == x,
        }
    }

    /// Tests whether `c` belongs to the class.
    pub fn contains(&self, c: char) -> (b: bool)
        ensures
            b == self.has(c),
    {
        match self {
            CharClass::Blank => {
                let u: u32 = c as u32;
                (0x09 <= u && u <= 0x0D) || u == 0x20 || u == 0x85 || u == 0xA0 || u == 0x1680 || (
                0x2000 <= u && u <= 0x200A) || u == 0x2028 || u == 0x2029 || u == 0x202F || u
                    == 0x205F || u == 0x3000
            },
            CharClass::AsciiBlank => c == ' ' || c == '\t' || c == '\n' || c == '\x0C' || c == '\r',
            CharClass::Only(x) => c == *x,
        }
    }
}

/// `s` without its longest prefix of characters of `class`.
pub open spec fn drop_leading(s: Seq<char>, class: CharClass) -> Seq<char>
    decreases s.len(),
{
    if s.len() > 0 && class.has(s[0]) {
        drop_leading(s.drop_first(), class)
    } else {
        s
    }
}

/// `s` without its longest suffix of characters of `class`.
pub open spec fn drop_trailing(s: Seq<char>, class: CharClass) -> Seq<char>
    decreases s.len(),
{
    if s.len() > 0 && class.has(s.last()) {
        drop_trailing(s.drop_last(), class)
    } else {
        s
    }
}

/// `s` without leading and trailing white space.
pub open spec fn trimmed(s: Seq<char>) -> Seq<char> {
    drop_trailing(drop_leading(s, CharClass::Blank), CharClass::Blank)
}

/// Removes the longest prefix of characters of `class`.
pub fn skip_leading<'a>(s: &'a [char], class: CharClass) -> (r: &'a [char])
    ensures
        r@ == drop_leading(s@, class),
{
    let mut i: usize = 0;
    assert(s@.skip(0) =~= s@);
    while i < s.len() && class.contains(s[i])
        invariant
            i <= s.len(),
            drop_leading(s@, class) == drop_leading(s@.skip(i as int), class),
        decreases s.len() - i,
    {
        assert(s@.skip(i as int).drop_first() =~= s@.skip(i as int + 1));
        i += 1;
    }
    vstd::slice::slice_subrange(s, i, s.len())
}

/// Removes the longest suffix of characters of `class`.
pub fn skip_trailing<'a>(s: &'a [char], class: CharClass) -> (r: &'a [char])
    ensures
        r@ == drop_trailing(s@, class),
{
    let mut n: usize = s.len();
    assert(s@.take(s.len() as int) =~= s@);
    while n > 0 && class.contains(s[n - 1])
        invariant
            n <= s.len(),
            drop_trailing(s@, class) == drop_trailing(s@.take(n as int), class),
        decreases n,
    {
        assert(s@.take(n as int).drop_last() =~= s@.take(n as int - 1));
        n -= 1;
    }
    vstd::slice::slice_subrange(s, 0, n)
}

/// Removes leading and trailing white space.
pub fn trim<'a>(s: &'a [char]) -> (r: &'a [char])
    ensures
        r@ == trimmed(s@),
{
    skip_trailing(skip_leading(s, CharClass::Blank), CharClass::Blank)
}

/// Whether `pat` stands in `s` at index `i`.
pub open spec fn occurs_at(s: Seq<char>, pat: Seq<char>, i: int) -> bool {
    0 <= i && i + pat.len() <= s.len() && s.subrange(i, i + pat.len()) == pat
}

/// Whether `pat` stands somewhere in `s`.
pub open spec fn occurs_in(s: Seq<char>, pat: Seq<char>) -> bool {
    exists|i: int| occurs_at(s, pat, i)
}

/// Whether `i` is the least index at which `pat` stands in `s`.
pub open spec fn is_first_occurrence(s: Seq<char>, pat: Seq<char>, i: int) -> bool {
    occurs_at(s, pat, i) && forall|j: int| 0 <= j < i ==> !occurs_at(s, pat, j)
}

/// The least index at which `pat` stands in `s`, where there is one.
pub open spec fn first_occurrence(s: Seq<char>, pat: Seq<char>) -> int {
    choose|i: int| is_first_occurrence(s, pat, i)
}

/// A first occurrence is the first occurrence.
pub proof fn lemma_first_occurrence(s: Seq<char>, pat: Seq<char>, i: int)
    requires
        is_first_occurrence(s, pat, i),
    ensures
        occurs_in(s, pat),
        first_occurrence(s, pat) == i,
{
}

/// Where `pat` stands in `s` at all, it has a first occurrence there.
pub proof fn lemma_occurs_has_first(s: Seq<char>, pat: Seq<char>)
    requires
        occurs_in(s, pat),
    ensures
        is_first_occurrence(s, pat, first_occurrence(s, pat)),
{
    let k = choose|i: int| occurs_at(s, pat, i);
    lemma_first_below(s, pat, k);
}

proof fn lemma_first_below(s: Seq<char>, pat: Seq<char>, k: int)
    requires
        occurs_at(s, pat, k),
    ensures
        exists|i: int| is_first_occurrence(s, pat, i),
    decreases k,
{
    if forall|j: int| 0 <= j < k ==> !occurs_at(s, pat, j) {
        assert(is_first_occurrence(s, pat, k));
    } else {
        let j = choose|j: int| 0 <= j < k && occurs_at(s, pat, j);
        lemma_first_below(s, pat, j);
    }
}

/// Tests whether `pat` stands in `s` at index `i`.
pub fn matches_at(s: &[char], pat: &[char], i: usize) -> (b: bool)
    ensures
        b == occurs_at(s@, pat@, i as int),
{
    if i > s.len() || pat.len() > s.len() - i {
        return false;
    }
    let mut k: usize = 0;
    while k < pat.len()
        invariant
            k <= pat.len(),
            i + pat.len() <= s.len(),
            forall|m: int| 0 <= m < k ==> s@[i + m] == pat@[m],
        decreases pat.len() - k,
    {
        if s[i + k] != pat[k] {
            return false;
        }
        k += 1;
    }
    assert(s@.subrange(i as int, i + pat.len()) =~= pat@);
    true
}

/// Looks for the first place at which `pat` stands in `s`.
pub fn find(s: &[char], pat: &[char]) -> (r: Option<usize>)
    ensures
        match r {
            Some(i) => is_first_occurrence(s@, pat@, i as int),
            None => !occurs_in(s@, pat@),
        },
{
    let mut i: usize = 0;
    while i < s.len()
        invariant
            i <= s.len(),
            forall|j: int| 0 <= j < i ==> !occurs_at(s@, pat@, j),
        decreases s.len() - i,
    {
        if matches_at(s, pat, i) {
            return Some(i);
        }
        i += 1;
    }
    if matches_at(s, pat, i) {
        return Some(i);
    }
    None
}

/// The pieces of `s` between the occurrences of `sep`, taken from the left
/// and without overlap. An empty `sep` divides nothing.
pub open spec fn split_on(s: Seq<char>, sep: Seq<char>) -> Seq<Seq<char>>
    decreases s.len(),
{
    if sep.len() > 0 && occurs_in(s, sep) {
        let i = first_occurrence(s, sep);
        proof {
            lemma_occurs_has_first(s, sep);
        }
        seq![s.take(i)] + split_on(s.skip(i + sep.len()), sep)
    } else {
        seq![s]
    }
}

/// The view of each item of `v`.
pub open spec fn views<T: View>(v: Seq<T>) -> Seq<T::V> {
    Seq::new(v.len(), |i: int| v[i]@)
}

/// Adding an item adds its view.
pub proof fn lemma_views_push<T: View>(v: Seq<T>, x: T)
    ensures
        views(v.push(x)) == views(v).push(x@),
{
}

/// Divides `s` at the occurrences of `sep`.
pub fn split(s: &[char], sep: &[char]) -> (parts: Vec<Vec<char>>)
    ensures
        views(parts@) == split_on(s@, sep@),
        parts.len() >= 1,
{
    let mut parts: Vec<Vec<char>> = Vec::new();
    let mut rest: &[char] = s;
    if sep.len() == 0 {
        parts.push(vstd::slice::slice_to_vec(rest));
        return parts;
    }
    loop
        invariant
            sep.len() > 0,
            split_on(s@, sep@) == views(parts@) + split_on(rest@, sep@),
        decreases rest.len(),
    {
        match find(rest, sep) {
            Some(i) => {
                proof {
                    lemma_first_occurrence(rest@, sep@, i as int);
                }
                parts.push(vstd::slice::slice_to_vec(vstd::slice::slice_subrange(rest, 0, i)));
                let next = vstd::slice::slice_subrange(rest, i + sep.len(), rest.len());
                rest = next;
            },
            None => {
                parts.push(vstd::slice::slice_to_vec(rest));
                return parts;
            },
        }
    }
}

/// The length of the longest prefix of `s` that holds no character of `class`.
pub open spec fn run_len(s: Seq<char>, class: CharClass) -> nat
    decreases s.len(),
{
    if s.len() == 0 || class.has(s[0]) {
        0
    } else {
        1 + run_len(s.drop_first(), class)
    }
}

/// A run is no longer than the sequence it starts.
pub proof fn lemma_run_len_bound(s: Seq<char>, class: CharClass)
    ensures
        run_len(s, class) <= s.len(),
    decreases s.len(),
{
    if s.len() > 0 && !class.has(s[0]) {
        lemma_run_len_bound(s.drop_first(), class);
    }
}

/// The maximal runs of characters outside `class`, in order: what is left
/// of `s` when the characters of `class` are taken as separators and empty
/// pieces are dropped.
pub open spec fn runs_of(s: Seq<char>, class: CharClass) -> Seq<Seq<char>>
    decreases s.len(),
{
    if s.len() == 0 {
        Seq::empty()
    } else if class.has(s[0]) {
        runs_of(s.drop_first(), class)
    } else {
        let n = run_len(s, class) as int;
        proof {
            lemma_run_len_bound(s, class);
        }
        seq![s.take(n)] + runs_of(s.skip(n), class)
    }
}

/// Divides `s` into its maximal runs of characters outside `class`.
pub fn split_runs(s: &[char], class: CharClass) -> (parts: Vec<Vec<char>>)
    ensures
        views(parts@) == runs_of(s@, class),
{
    let mut parts: Vec<Vec<char>> = Vec::new();
    let mut rest: &[char] = s;
    while rest.len() > 0
        invariant
            runs_of(s@, class) == views(parts@) + runs_of(rest@, class),
        decreases rest.len(),
    {
        if class.contains(rest[0]) {
            let next = vstd::slice::slice_subrange(rest, 1, rest.len());
            rest = next;
        } else {
            let mut n: usize = 1;
            while n < rest.len() && !class.contains(rest[n])
                invariant
                    1 <= n <= rest.len(),
                    run_len(rest@, class) == n + run_len(rest@.skip(n as int), class),
                decreases rest.len() - n,
            {
                assert(rest@.skip(n as int).drop_first() =~= rest@.skip(n as int + 1));
                n += 1;
            }
            parts.push(vstd::slice::slice_to_vec(vstd::slice::slice_subrange(rest, 0, n)));
            let next = vstd::slice::slice_subrange(rest, n, rest.len());
            rest = next;
        }
    }
    parts
}

/// The lines of `s`: its pieces between line feeds, without the empty piece
/// that a final line feed leaves behind.
pub open spec fn lines_of(s: Seq<char>) -> Seq<Seq<char>> {
    let parts = split_on(s, seq!['\n']);
    if parts.last().len() == 0 {
        parts.drop_last()
    } else {
        parts
    }
}

/// Divides `s` into lines.
pub fn lines(s: &[char]) -> (parts: Vec<Vec<char>>)
    ensures
        views(parts@) == lines_of(s@),
{
    let mut sep: Vec<char> = Vec::new();
    sep.push('\n');
    let mut parts = split(s, sep.as_slice());
    if parts[parts.len() - 1].len() == 0 {
        parts.pop();
    }
    parts
}

/// The decimal digits.
pub open spec fn is_digit(c: char) -> bool {
    '0' <= c <= '9'
}

/// Whether `s` holds decimal digits only.
pub open spec fn all_digits(s: Seq<char>) -> bool {
    forall|i: int| 0 <= i < s.len() ==> is_digit(#[trigger] s[i])
}

/// The number that the digits of `s` write in base ten.
pub open spec fn decimal_value(s: Seq<char>) -> nat
    decreases s.len(),
{
    if s.len() == 0 {
        0
    } else {
        (decimal_value(s.drop_last()) * 10 + (s.last() as u32 - '0' as u32)) as nat
    }
}

/// The number that `s` writes, where `s` is a non-empty run of digits whose
/// value fits in an `i32`.
pub open spec fn decimal_of(s: Seq<char>) -> Option<i32> {
    if s.len() > 0 && all_digits(s) && decimal_value(s) <= i32::MAX {
        Some(decimal_value(s) as i32)
    } else {
        None
    }
}

/// The digits written so far never stand for more than all of them.
pub proof fn lemma_decimal_prefix(s: Seq<char>, k: int)
    requires
        all_digits(s),
        0 <= k <= s.len(),
    ensures
        decimal_value(s.take(k)) <= decimal_value(s),
    decreases s.len() - k,
{
    if k == s.len() {
        assert(s.take(k) =~= s);
    } else {
        lemma_decimal_prefix(s, k + 1);
        assert(s.take(k + 1).drop_last() =~= s.take(k));
    }
}

/// Reads a non-empty run of decimal digits as an `i32`.
pub fn parse_decimal(s: &[char]) -> (r: Option<i32>)
    ensures
        r == decimal_of(s@),
{
    if s.len() == 0 {
        return None;
    }
    let mut value: i32 = 0;
    let mut i: usize = 0;
    while i < s.len()
        invariant
            i <= s.len(),
            all_digits(s@.take(i as int)),
            value == decimal_value(s@.take(i as int)),
        decreases s.len() - i,
    {
        let c = s[i];
        if !('0' <= c && c <= '9') {
            return None;
        }
        let d: i32 = (c as u32 - '0' as u32) as i32;
        assert(s@.take(i as int + 1).drop_last() =~= s@.take(i as int));
        let ghost now = s@.take(i as int + 1);
        assert forall|j: int| 0 <= j < now.len() implies is_digit(#[trigger] now[j]) by {}
        if value > (i32::MAX - d) / 10 {
            proof {
                if all_digits(s@) {
                    lemma_decimal_prefix(s@, i as int + 1);
                }
            }
            return None;
        }
        value = value * 10 + d;
        i += 1;
    }
    assert(s@.take(s.len() as int) =~= s@);
    Some(value)
}

/// The characters of `s`, in order.
pub fn to_chars(s: &str) -> (chars: Vec<char>)
    ensures
        chars@ == s@,
{
    let mut chars: Vec<char> = Vec::new();
    for c in it: s.chars()
        invariant
            chars@ == s@.take(it.index() as int),
            it.seq() == s@,
    {
        chars.push(c);
    }
    chars
}

/// `String::push` appends one character to the end of the string.
pub assume_specification[ String::push ](s: &mut String, c: char)
    ensures
        final(s)@ == old(s)@.push(c),
;

/// The string made of `chars`, in order.
pub fn to_text(chars: &[char]) -> (s: String)
    ensures
        s@ == chars@,
{
    let mut s = String::new();
    let mut i: usize = 0;
    while i < chars.len()
        invariant
            i <= chars.len(),
            s@ == chars@.take(i as int),
        decreases chars.len() - i,
    {
        s.push(chars[i]);
        i += 1;
    }
    s
}

/// The strings that `parts` hold.
pub fn to_texts(parts: &Vec<Vec<char>>) -> (strings: Vec<String>)
    ensures
        views(strings@) == views(parts@),
        strings.len() == parts.len(),
{
    let mut strings: Vec<String> = Vec::new();
    let mut i: usize = 0;
    while i < parts.len()
        invariant
            i <= parts.len(),
            strings.len() == i,
            views(strings@) == views(parts@).take(i as int),
        decreases parts.len() - i,
    {
        strings.push(to_text(parts[i].as_slice()));
        i += 1;
    }
    strings
}

/// Divides `s` at the occurrences of `sep`.
pub fn split_text(s: &str, sep: &str) -> (parts: Vec<String>)
    ensures
        views(parts@) == split_on(s@, sep@),
        parts.len() >= 1,
{
    let chars = to_chars(s);
    let pattern = to_chars(sep);
    let pieces = split(chars.as_slice(), pattern.as_slice());
    to_texts(&pieces)
}

/// The items of `parts` in order, with `sep` between each two.
pub open spec fn joined(parts: Seq<Seq<char>>, sep: Seq<char>) -> Seq<char>
    decreases parts.len(),
{
    if parts.len() == 0 {
        Seq::empty()
    } else if parts.len() == 1 {
        parts[0]
    } else {
        joined(parts.drop_last(), sep) + sep + parts.last()
    }
}

/// Joins the first `n` items of `parts`, with `sep` between each two.
pub fn join_first(parts: &Vec<String>, n: usize, sep: &str) -> (text: String)
    requires
        n <= parts.len(),
    ensures
        text@ == joined(views(parts@).take(n as int), sep@),
{
    let mut text = String::new();
    let mut i: usize = 0;
    while i < n
        invariant
            i <= n <= parts.len(),
            text@ == joined(views(parts@).take(i as int), sep@),
        decreases n - i,
    {
        if i > 0 {
            text.append(sep);
        }
        text.append(parts[i].as_str());
        proof {
            let now = views(parts@).take(i as int + 1);
            assert(now.drop_last() =~= views(parts@).take(i as int));
        }
        i += 1;
    }
    text
}

/// The items of `parts` that are not empty, in order.
pub open spec fn non_empty(parts: Seq<Seq<char>>) -> Seq<Seq<char>>
    decreases parts.len(),
{
    if parts.len() == 0 {
        Seq::empty()
    } else if parts.last().len() > 0 {
        non_empty(parts.drop_last()).push(parts.last())
    } else {
        non_empty(parts.drop_last())
    }
}

/// Drops the empty items of `parts`.
pub fn keep_non_empty(parts: Vec<Vec<char>>) -> (kept: Vec<Vec<char>>)
    ensures
        views(kept@) == non_empty(views(parts@)),
{
    let mut kept: Vec<Vec<char>> = Vec::new();
    let mut parts = parts;
    let ghost all = parts@;
    let mut i: usize = 0;
    while i < parts.len()
        invariant
            i <= parts.len(),
            parts.len() == all.len(),
            forall|k: int| i <= k < all.len() ==> parts@[k]@ == all[k]@,
            views(kept@) == non_empty(views(all).take(i as int)),
        decreases parts.len() - i,
    {
        proof {
            let now = views(all).take(i as int + 1);
            assert(now.drop_last() =~= views(all).take(i as int));
        }
        if parts[i].len() > 0 {
            let mut item: Vec<char> = Vec::new();
            std::mem::swap(&mut item, &mut parts[i]);
            kept.push(item);
        }
        i += 1;
    }
    assert(views(all).take(all.len() as int) =~= views(all));
    kept
}

/// The character that stands for a digit.
pub open spec fn digit_char(d: nat) -> char {
    ((48 + d) as u8) as char
}

/// The digits that write `n` in base ten, without leading zeros.
pub open spec fn digits_of(n: nat) -> Seq<char>
    decreases n,
{
    if n < 10 {
        seq![digit_char(n)]
    } else {
        digits_of(n / 10).push(digit_char(n % 10))
    }
}

/// The text that writes `n` in base ten, with a minus sign before a
/// negative number.
pub open spec fn number_text(n: int) -> Seq<char> {
    if n < 0 {
        seq!['-'] + digits_of((-n) as nat)
    } else {
        digits_of(n as nat)
    }
}

fn push_digits(text: &mut String, n: u32)
    ensures
        final(text)@ == old(text)@ + digits_of(n as nat),
    decreases n,
{
    if n >= 10 {
        push_digits(text, n / 10);
    }
    let d: u8 = (n % 10) as u8;
    text.push((48u8 + d) as char);
}

/// Writes `n` in base ten.
pub fn number_to_text(n: i32) -> (text: String)
    ensures
        text@ == number_text(n as int),
{
    let mut text = String::new();
    if n < 0 {
        text.push('-');
        let magnitude: u32 = (-(n as i64)) as u32;
        push_digits(&mut text, magnitude);
    } else {
        push_digits(&mut text, n as u32);
    }
    text
}

} // verus!

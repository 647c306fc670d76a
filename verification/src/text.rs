//! Text primitives shared by every module: character sequences, trimming,
//! joining, decimal and hexadecimal rendering.
use vstd::prelude::*;
use vstd::string::*;

verus! {

/// The text of an optional string.
pub open spec fn opt_text(text: Option<String>) -> Option<Seq<char>> {
    match text {
        Some(text) => Some(text@),
        None => None,
    }
}

/// A copy of an optional string.
pub(crate) fn copy_opt(text: &Option<String>) -> (r: Option<String>)
    ensures
        opt_text(r) == opt_text(*text),
{
    match text {
        Some(text) => Some(text.clone()),
        None => None,
    }
}

/// The text of an optional borrowed string.
pub open spec fn opt_str(text: Option<&str>) -> Option<Seq<char>> {
    match text {
        Some(text) => Some(text@),
        None => None,
    }
}

/// Appends one character to a string, by `String::push`: the text afterwards
/// is the text before followed by `c`.
#[verifier::external_body]
pub(crate) fn push_char(s: &mut String, c: char)
    ensures
        final(s)@ == old(s)@.push(c),
{
    s.push(c);
}

/// Compares two string slices, by `str`'s `==`: true exactly when both hold
/// the same characters.
#[verifier::external_body]
pub(crate) fn str_eq(a: &str, b: &str) -> (r: bool)
    ensures
        r == (a@ == b@),
{
    a == b
}

/// Whether a character has Unicode's `White_Space` property.
pub open spec fn white_space(c: char) -> bool {
    let code = c as u32;
    ||| 0x9 <= code <= 0xd
    ||| code == 0x20
    ||| code == 0x85
    ||| code == 0xa0
    ||| code == 0x1680
    ||| 0x2000 <= code <= 0x200a
    ||| code == 0x2028
    ||| code == 0x2029
    ||| code == 0x202f
    ||| code == 0x205f
    ||| code == 0x3000
}

/// Whether a character has Unicode's `White_Space` property.
pub(crate) fn is_white_space(c: char) -> (r: bool)
    ensures
        r == white_space(c),
{
    let code: u32 = c as u32;
    (0x9 <= code && code <= 0xd) || code == 0x20 || code == 0x85 || code == 0xa0 || code == 0x1680
        || (0x2000 <= code && code <= 0x200a) || code == 0x2028 || code == 0x2029 || code == 0x202f
        || code == 0x205f || code == 0x3000
}

/// A string as Rust's `Debug` writes it, quotes and escapes included.
pub uninterp spec fn debug_quoted(s: Seq<char>) -> Seq<char>;

/// `Debug` formatting of a string slice, named by `debug_quoted`.
#[verifier::external_body]
pub(crate) fn debug_text(s: &str) -> (r: String)
    ensures
        r@ == debug_quoted(s@),
{
    format!("{:?}", s)
}

/// A string with every character in lower case, by Unicode's rules.
pub uninterp spec fn unicode_lowered(s: Seq<char>) -> Seq<char>;

/// `str::to_lowercase`, named by `unicode_lowered`.
#[verifier::external_body]
pub(crate) fn lowercase(s: &str) -> (r: String)
    ensures
        r@ == unicode_lowered(s@),
{
    s.to_lowercase()
}

/// The characters of `s`, in order.
pub fn to_chars(s: &str) -> (r: Vec<char>)
    ensures
        r@ == s@,
{
    let mut out: Vec<char> = Vec::new();
    for c in it: s.chars()
        invariant
            out@ == it.seq().take(it.index() as int),
            it.seq() == s@,
    {
        out.push(c);
    }
    out
}

/// The string made of `chars[from..to]`.
pub fn from_range(chars: &Vec<char>, from: usize, to: usize) -> (r: String)
    requires
        from <= to <= chars@.len(),
    ensures
        r@ == chars@.subrange(from as int, to as int),
{
    let mut out: String = String::new();
    let mut i: usize = from;
    while i < to
        invariant
            from <= i <= to <= chars@.len(),
            out@ == chars@.subrange(from as int, i as int),
        decreases to - i,
    {
        push_char(&mut out, chars[i]);
        proof {
            assert(chars@.subrange(from as int, i + 1) =~= chars@.subrange(from as int, i as int).push(chars@[i as int]));
        }
        i += 1;
    }
    out
}

/// The characters of each string of a list.
pub open spec fn texts(list: Seq<String>) -> Seq<Seq<char>> {
    list.map_values(|s: String| s@)
}

/// A copy of a list of strings.
pub fn copy_all(list: &Vec<String>) -> (r: Vec<String>)
    ensures
        texts(r@) == texts(list@),
{
    let mut out: Vec<String> = Vec::new();
    let mut i: usize = 0;
    while i < list.len()
        invariant
            i <= list@.len(),
            out@.len() == i,
            forall|k: int| 0 <= k < i ==> (#[trigger] out@[k])@ == list@[k]@,
        decreases list.len() - i,
    {
        out.push(list[i].clone());
        i += 1;
    }
    proof {
        assert(texts(out@) =~= texts(list@));
    }
    out
}

/// Where the first character outside `0..from` that is not white space
/// stands; the length where there is none.
pub open spec fn first_solid(s: Seq<char>, from: int) -> int
    decreases s.len() - from,
{
    if from < 0 || from >= s.len() || !white_space(s[from]) {
        from
    } else {
        first_solid(s, from + 1)
    }
}

/// One past the last character of `0..to` that is not white space; zero where
/// there is none.
pub open spec fn last_solid(s: Seq<char>, to: int) -> int
    decreases to,
{
    if to <= 0 || to > s.len() || !white_space(s[to - 1]) {
        to
    } else {
        last_solid(s, to - 1)
    }
}

/// `s` without leading and trailing white space.
pub open spec fn trimmed(s: Seq<char>) -> Seq<char> {
    let from = first_solid(s, 0);
    if from >= s.len() {
        Seq::empty()
    } else {
        s.subrange(from, last_solid(s, s.len() as int))
    }
}

/// The solid part of a string lies inside it.
pub proof fn lemma_solid_bounds(s: Seq<char>, from: int, to: int)
    requires
        0 <= from <= s.len(),
        0 <= to <= s.len(),
    ensures
        from <= first_solid(s, from) <= s.len(),
        0 <= last_solid(s, to) <= to,
        forall|k: int| from <= k < first_solid(s, from) ==> white_space(s[k]),
        first_solid(s, from) < s.len() ==> !white_space(s[first_solid(s, from)]),
        last_solid(s, to) > 0 ==> !white_space(s[last_solid(s, to) - 1]),
        forall|k: int| last_solid(s, to) <= k < to ==> white_space(s[k]),
    decreases s.len() - from + to,
{
    if from < s.len() && white_space(s[from]) {
        lemma_solid_bounds(s, from + 1, to);
    } else if to > 0 && white_space(s[to - 1]) {
        lemma_solid_bounds(s, from, to - 1);
    }
}

/// Trimming takes white space off both ends and nothing else: what is left
/// neither starts nor ends with white space, and trimming it again changes
/// nothing.
pub proof fn trimming_is_idempotent(s: Seq<char>)
    ensures
        trimmed(trimmed(s)) == trimmed(s),
        trimmed(s).len() > 0 ==> !white_space(trimmed(s)[0]) && !white_space(trimmed(s).last()),
{
    lemma_solid_bounds(s, 0, s.len() as int);
    let from = first_solid(s, 0);
    let to = last_solid(s, s.len() as int);
    if from < s.len() {
        assert(to > from) by {
            if to <= from {
                assert(white_space(s[from]));
            }
        }
        let t = trimmed(s);
        assert(first_solid(t, 0) == 0);
        assert(last_solid(t, t.len() as int) == t.len());
        assert(t.subrange(0, t.len() as int) =~= t);
    }
}

/// `s` without leading and trailing white space, as `str::trim` gives it.
pub fn trim(s: &str) -> (r: String)
    ensures
        r@ == trimmed(s@),
{
    let chars = to_chars(s);
    let mut from: usize = 0;
    while from < chars.len() && is_white_space(chars[from])
        invariant
            from <= chars@.len(),
            first_solid(chars@, from as int) == first_solid(chars@, 0),
        decreases chars.len() - from,
    {
        from += 1;
    }
    if from >= chars.len() {
        return String::new();
    }
    let mut to: usize = chars.len();
    while to > 0 && is_white_space(chars[to - 1])
        invariant
            to <= chars@.len(),
            last_solid(chars@, to as int) == last_solid(chars@, chars@.len() as int),
        decreases to,
    {
        to -= 1;
    }
    proof {
        lemma_solid_bounds(chars@, 0, chars@.len() as int);
        if to <= from {
            assert(white_space(chars@[from as int]));
        }
    }
    from_range(&chars, from, to)
}

/// Whether a text holds another one somewhere.
pub open spec fn mentions(text: Seq<char>, part: Seq<char>) -> bool {
    exists|before: Seq<char>, after: Seq<char>| text == #[trigger] enclosed(before, part, after)
}

/// A text between two others.
pub open spec fn enclosed(before: Seq<char>, part: Seq<char>, after: Seq<char>) -> Seq<char> {
    before + part + after
}

/// A text between two others is mentioned by the whole.
pub proof fn what_is_written_is_mentioned(before: Seq<char>, part: Seq<char>, after: Seq<char>)
    ensures
        mentions(before + part + after, part),
        mentions(before + part, part),
        mentions(part + after, part),
        mentions(part, part),
{
    let none = Seq::<char>::empty();
    assert(before + part + after == enclosed(before, part, after));
    assert(before + part =~= enclosed(before, part, none));
    assert(part + after =~= enclosed(none, part, after));
    assert(part =~= enclosed(none, part, none));
}

/// Whether `s` begins with `prefix`.
pub open spec fn has_prefix(s: Seq<char>, prefix: Seq<char>) -> bool {
    prefix.len() <= s.len() && s.take(prefix.len() as int) == prefix
}

/// Whether `s` ends with `suffix`.
pub open spec fn has_suffix(s: Seq<char>, suffix: Seq<char>) -> bool {
    suffix.len() <= s.len() && s.skip(s.len() - suffix.len()) == suffix
}

/// Whether `part` stands in `s` at position `at`.
pub open spec fn stands_at(s: Seq<char>, part: Seq<char>, at: int) -> bool {
    0 <= at && at + part.len() <= s.len() && s.subrange(at, at + part.len()) == part
}

/// Whether `part` stands in `s` at position `at`.
pub fn matches_at(s: &Vec<char>, part: &Vec<char>, at: usize) -> (r: bool)
    ensures
        r == stands_at(s@, part@, at as int),
{
    if at > s.len() || part.len() > s.len() - at {
        return false;
    }
    let mut i: usize = 0;
    while i < part.len()
        invariant
            i <= part@.len(),
            at + part.len() <= s.len(),
            forall|k: int| 0 <= k < i ==> s@[at + k] == part@[k],
        decreases part.len() - i,
    {
        if s[at + i] != part[i] {
            proof {
                assert(s@.subrange(at as int, at + part@.len())[i as int] != part@[i as int]);
            }
            return false;
        }
        i += 1;
    }
    proof {
        assert(s@.subrange(at as int, at + part@.len()) =~= part@);
    }
    true
}

/// Whether `s` begins with `prefix`, as `str::starts_with` decides.
pub fn starts_with(s: &str, prefix: &str) -> (r: bool)
    ensures
        r == has_prefix(s@, prefix@),
{
    let chars = to_chars(s);
    let part = to_chars(prefix);
    proof {
        if part@.len() <= chars@.len() {
            assert(chars@.subrange(0, part@.len() as int) =~= chars@.take(part@.len() as int));
        }
    }
    matches_at(&chars, &part, 0)
}

/// Whether `s` ends with `suffix`, as `str::ends_with` decides.
pub fn ends_with(s: &str, suffix: &str) -> (r: bool)
    ensures
        r == has_suffix(s@, suffix@),
{
    let chars = to_chars(s);
    let part = to_chars(suffix);
    if part.len() > chars.len() {
        return false;
    }
    let at: usize = chars.len() - part.len();
    proof {
        assert(chars@.subrange(at as int, at + part@.len()) =~= chars@.skip(at as int));
    }
    matches_at(&chars, &part, at)
}

/// Whether `c` occurs in `s`.
pub fn has_char(s: &str, c: char) -> (r: bool)
    ensures
        r == s@.contains(c),
{
    let chars = to_chars(s);
    let mut i: usize = 0;
    while i < chars.len()
        invariant
            i <= chars@.len(),
            chars@ == s@,
            forall|k: int| 0 <= k < i ==> chars@[k] != c,
        decreases chars.len() - i,
    {
        if chars[i] == c {
            proof {
                assert(chars@[i as int] == c);
            }
            return true;
        }
        i += 1;
    }
    false
}

/// An ASCII capital letter as the small one, every other character as it is.
pub open spec fn ascii_lower(c: char) -> char {
    if 'A' <= c && c <= 'Z' {
        (c as u8 + 32) as char
    } else {
        c
    }
}

/// An ASCII small letter as the capital one, every other character as it is.
pub open spec fn ascii_upper(c: char) -> char {
    if 'a' <= c && c <= 'z' {
        (c as u8 - 32) as char
    } else {
        c
    }
}

/// `s` with its ASCII capital letters made small.
pub open spec fn lowered(s: Seq<char>) -> Seq<char> {
    s.map_values(|c: char| ascii_lower(c))
}

/// `s` with its ASCII small letters made capital.
pub open spec fn raised(s: Seq<char>) -> Seq<char> {
    s.map_values(|c: char| ascii_upper(c))
}

/// `s` with its ASCII capital letters made small.
pub fn to_lower(s: &str) -> (r: String)
    ensures
        r@ == lowered(s@),
{
    let chars = to_chars(s);
    let mut out: String = String::new();
    let mut i: usize = 0;
    while i < chars.len()
        invariant
            i <= chars@.len(),
            out@ == lowered(chars@).take(i as int),
        decreases chars.len() - i,
    {
        let c = chars[i];
        let d: char = if 'A' <= c && c <= 'Z' {
            (c as u8 + 32) as char
        } else {
            c
        };
        push_char(&mut out, d);
        proof {
            assert(lowered(chars@).take(i + 1) =~= lowered(chars@).take(i as int).push(d));
        }
        i += 1;
    }
    proof {
        assert(lowered(chars@).take(chars@.len() as int) =~= lowered(chars@));
    }
    out
}

/// `s` with its ASCII small letters made capital.
pub fn to_upper(s: &str) -> (r: String)
    ensures
        r@ == raised(s@),
{
    let chars = to_chars(s);
    let mut out: String = String::new();
    let mut i: usize = 0;
    while i < chars.len()
        invariant
            i <= chars@.len(),
            out@ == raised(chars@).take(i as int),
        decreases chars.len() - i,
    {
        let c = chars[i];
        let d: char = if 'a' <= c && c <= 'z' {
            (c as u8 - 32) as char
        } else {
            c
        };
        push_char(&mut out, d);
        proof {
            assert(raised(chars@).take(i + 1) =~= raised(chars@).take(i as int).push(d));
        }
        i += 1;
    }
    proof {
        assert(raised(chars@).take(chars@.len() as int) =~= raised(chars@));
    }
    out
}

/// The digit `d` of base sixteen, letters small.
pub open spec fn digit(d: int) -> char {
    if d < 10 {
        (d + 48) as char
    } else {
        (d + 87) as char
    }
}

/// `n` in decimal, without leading zeros.
pub open spec fn decimal(n: nat) -> Seq<char>
    decreases n,
{
    if n < 10 {
        seq![digit(n as int)]
    } else {
        decimal(n / 10).push(digit((n % 10) as int))
    }
}

/// The digit `d` of base sixteen, letters small.
pub fn digit_char(d: u8) -> (r: char)
    requires
        d < 16,
    ensures
        r == digit(d as int),
{
    if d < 10 {
        (d + 48) as char
    } else {
        (d + 87) as char
    }
}

/// `n` in decimal, without leading zeros.
pub fn to_decimal(n: u64) -> (r: String)
    ensures
        r@ == decimal(n as nat),
    decreases n,
{
    if n < 10 {
        let mut out: String = String::new();
        push_char(&mut out, digit_char(n as u8));
        proof {
            assert(out@ =~= decimal(n as nat));
        }
        out
    } else {
        let mut out: String = to_decimal(n / 10);
        push_char(&mut out, digit_char((n % 10) as u8));
        out
    }
}

/// `bytes` in base sixteen, two small digits for each byte.
pub open spec fn hex(bytes: Seq<u8>) -> Seq<char>
    decreases bytes.len(),
{
    if bytes.len() == 0 {
        Seq::empty()
    } else {
        hex(bytes.drop_last()).push(digit((bytes.last() / 16) as int)).push(
            digit((bytes.last() % 16) as int),
        )
    }
}

/// `bytes` in base sixteen, two small digits for each byte.
pub fn to_hex(bytes: &[u8]) -> (r: String)
    ensures
        r@ == hex(bytes@),
{
    let mut out: String = String::new();
    let mut i: usize = 0;
    while i < bytes.len()
        invariant
            i <= bytes@.len(),
            out@ == hex(bytes@.take(i as int)),
        decreases bytes.len() - i,
    {
        let b: u8 = bytes[i];
        push_char(&mut out, digit_char(b / 16));
        push_char(&mut out, digit_char(b % 16));
        proof {
            assert(bytes@.take(i + 1).drop_last() =~= bytes@.take(i as int));
        }
        i += 1;
    }
    proof {
        assert(bytes@.take(bytes@.len() as int) =~= bytes@);
    }
    out
}

/// Every byte takes two digits.
pub proof fn lemma_hex_len(bytes: Seq<u8>)
    ensures
        hex(bytes).len() == 2 * bytes.len(),
    decreases bytes.len(),
{
    if bytes.len() > 0 {
        lemma_hex_len(bytes.drop_last());
    }
}

/// The parts of `list`, `sep` between each two.
pub open spec fn joined(list: Seq<Seq<char>>, sep: Seq<char>) -> Seq<char>
    decreases list.len(),
{
    if list.len() == 0 {
        Seq::empty()
    } else if list.len() == 1 {
        list[0]
    } else {
        joined(list.drop_last(), sep) + sep + list.last()
    }
}

/// The strings of `list`, `sep` between each two.
pub fn join(list: &Vec<String>, sep: &str) -> (r: String)
    ensures
        r@ == joined(texts(list@), sep@),
{
    let mut out: String = String::new();
    let mut i: usize = 0;
    while i < list.len()
        invariant
            i <= list@.len(),
            out@ == joined(texts(list@).take(i as int), sep@),
        decreases list.len() - i,
    {
        proof {
            assert(texts(list@).take(i + 1).drop_last() =~= texts(list@).take(i as int));
        }
        if i > 0 {
            out.append(sep);
        }
        out.append(list[i].as_str());
        proof {
            let parts = texts(list@).take(i + 1);
            assert(parts.last() == list@[i as int]@);
            if i == 0 {
                assert(out@ =~= parts[0]);
            }
        }
        i += 1;
    }
    proof {
        assert(texts(list@).take(list@.len() as int) =~= texts(list@));
    }
    out
}

/// The pieces of a text between the places where `sep` stands: one more than
/// there are such places.
pub open spec fn pieces(s: Seq<char>, sep: char) -> Seq<Seq<char>>
    decreases s.len(),
{
    if s.len() == 0 {
        seq![Seq::empty()]
    } else {
        let before = pieces(s.drop_last(), sep);
        if s.last() == sep {
            before.push(Seq::empty())
        } else {
            before.drop_last().push(before.last().push(s.last()))
        }
    }
}

/// The pieces of a text between the places where `sep` stands.
pub fn split(s: &str, sep: char) -> (r: Vec<String>)
    ensures
        texts(r@) == pieces(s@, sep),
        r@.len() > 0,
{
    let chars = to_chars(s);
    let mut out: Vec<String> = Vec::new();
    let mut piece: String = String::new();
    let mut i: usize = 0;
    proof {
        assert(texts(out@).push(piece@) =~= pieces(chars@.take(0), sep));
    }
    while i < chars.len()
        invariant
            i <= chars@.len(),
            texts(out@).push(piece@) == pieces(chars@.take(i as int), sep),
        decreases chars.len() - i,
    {
        let c = chars[i];
        let ghost before = texts(out@);
        let ghost told = pieces(chars@.take(i as int), sep);
        proof {
            assert(chars@.take(i + 1).drop_last() =~= chars@.take(i as int));
            assert(told.drop_last() =~= before);
            assert(told.last() == piece@);
        }
        if c == sep {
            let ghost done = piece@;
            out.push(piece);
            piece = String::new();
            proof {
                assert(texts(out@) =~= before.push(done));
                assert(texts(out@).push(piece@) =~= told.push(Seq::empty()));
            }
        } else {
            push_char(&mut piece, c);
        }
        i += 1;
    }
    let ghost before = texts(out@);
    let ghost last = piece@;
    out.push(piece);
    proof {
        assert(chars@.take(chars@.len() as int) =~= s@);
        assert(texts(out@) =~= before.push(last));
    }
    out
}

/// How many of the first characters are among `set`, counted from `from`.
pub open spec fn leading(s: Seq<char>, set: Seq<char>, from: int) -> int
    decreases s.len() - from,
{
    if 0 <= from < s.len() && set.contains(s[from]) {
        1 + leading(s, set, from + 1)
    } else {
        0
    }
}

/// How many of the last of the first `to` characters are among `set`.
pub open spec fn trailing(s: Seq<char>, set: Seq<char>, to: int) -> int
    decreases to,
{
    if 0 < to <= s.len() && set.contains(s[to - 1]) {
        1 + trailing(s, set, to - 1)
    } else {
        0
    }
}

/// The counts of leading and trailing characters stay within the text.
pub proof fn lemma_edges(s: Seq<char>, set: Seq<char>, from: int, to: int)
    requires
        0 <= from <= s.len(),
        0 <= to <= s.len(),
    ensures
        0 <= leading(s, set, from) <= s.len() - from,
        0 <= trailing(s, set, to) <= to,
    decreases s.len() - from + to,
{
    if from < s.len() && set.contains(s[from]) {
        lemma_edges(s, set, from + 1, to);
    } else if to > 0 && set.contains(s[to - 1]) {
        lemma_edges(s, set, from, to - 1);
    }
}

/// A text without the characters of `set` at its beginning.
pub open spec fn start_trimmed(s: Seq<char>, set: Seq<char>) -> Seq<char> {
    s.skip(leading(s, set, 0))
}

/// A text without the characters of `set` at its beginning and its end.
pub open spec fn edges_trimmed(s: Seq<char>, set: Seq<char>) -> Seq<char> {
    let rest = start_trimmed(s, set);
    rest.take(rest.len() - trailing(rest, set, rest.len() as int))
}

/// Whether a character is among some.
fn among(c: char, set: &Vec<char>) -> (r: bool)
    ensures
        r == set@.contains(c),
{
    let mut i: usize = 0;
    while i < set.len()
        invariant
            i <= set@.len(),
            forall|k: int| 0 <= k < i ==> set@[k] != c,
        decreases set.len() - i,
    {
        if set[i] == c {
            return true;
        }
        i += 1;
    }
    false
}

/// A text without the characters of `set` at its beginning.
pub fn trim_start_of(s: &str, set: &Vec<char>) -> (r: String)
    ensures
        r@ == start_trimmed(s@, set@),
{
    let chars = to_chars(s);
    let mut i: usize = 0;
    while i < chars.len() && among(chars[i], set)
        invariant
            i <= chars@.len(),
            leading(chars@, set@, 0) == i + leading(chars@, set@, i as int),
        decreases chars.len() - i,
    {
        i += 1;
    }
    proof {
        assert(s@.skip(i as int) =~= s@.subrange(i as int, s@.len() as int));
    }
    from_range(&chars, i, chars.len())
}

/// A text without the characters of `set` at its beginning and its end.
pub fn trim_edges_of(s: &str, set: &Vec<char>) -> (r: String)
    ensures
        r@ == edges_trimmed(s@, set@),
{
    let rest = trim_start_of(s, set);
    let chars = to_chars(rest.as_str());
    let mut n: usize = chars.len();
    while n > 0 && among(chars[n - 1], set)
        invariant
            n <= chars@.len(),
            trailing(chars@, set@, chars@.len() as int) == chars@.len() - n + trailing(
                chars@,
                set@,
                n as int,
            ),
        decreases n,
    {
        n -= 1;
    }
    proof {
        assert(rest@.take(n as int) =~= rest@.subrange(0, n as int));
    }
    from_range(&chars, 0, n)
}

/// Trimming takes white space off both ends and nothing else: what comes back
/// stands in the text, all around it is white space, and neither of its ends is.
pub proof fn trimming_takes_only_white_space(s: &str, r: String)
    requires
        call_ensures(trim, (s,), r),
    ensures
        exists|from: int, to: int|
            #![trigger s@.subrange(from, to)]
            0 <= from <= to <= s@.len() && r@ == s@.subrange(from, to) && (forall|k: int|
                0 <= k < from || to <= k < s@.len() ==> white_space(#[trigger] s@[k])) && (from < to
                ==> !white_space(s@[from]) && !white_space(s@[to - 1])),
{
    lemma_trimmed(s@);
}

/// Where the trimmed part of a text stands.
pub proof fn lemma_trimmed(s: Seq<char>)
    ensures
        exists|from: int, to: int|
            #![trigger s.subrange(from, to)]
            0 <= from <= to <= s.len() && trimmed(s) == s.subrange(from, to) && (forall|k: int|
                0 <= k < from || to <= k < s.len() ==> white_space(#[trigger] s[k])) && (from < to
                ==> !white_space(s[from]) && !white_space(s[to - 1])),
{
    let n = s.len() as int;
    lemma_solid_bounds(s, 0, n);
    let from = first_solid(s, 0);
    let to = last_solid(s, n);
    if from >= n {
        assert(s.subrange(n, n) =~= trimmed(s));
    } else {
        if to <= from {
            assert(white_space(s[from]));
        }
        assert(s.subrange(from, to) == trimmed(s));
    }
}

/// The pieces of a text, joined again, are the text, and no piece holds what
/// stood between them.
pub proof fn joining_undoes_splitting(s: &str, sep: char, r: Vec<String>)
    requires
        call_ensures(split, (s, sep), r),
    ensures
        r@.len() > 0,
        joined(texts(r@), seq![sep]) == s@,
        forall|k: int| 0 <= k < r@.len() ==> !(#[trigger] r@[k])@.contains(sep),
{
    lemma_pieces(s@, sep);
    assert(texts(r@).len() == r@.len());
    assert forall|k: int| 0 <= k < r@.len() implies !(#[trigger] r@[k])@.contains(sep) by {
        assert(texts(r@)[k] == r@[k]@);
    }
}

/// The pieces of a text hold no separator, and are the text when joined.
pub proof fn lemma_pieces(s: Seq<char>, sep: char)
    ensures
        pieces(s, sep).len() > 0,
        joined(pieces(s, sep), seq![sep]) == s,
        forall|k: int|
            0 <= k < pieces(s, sep).len() ==> !(#[trigger] pieces(s, sep)[k]).contains(sep),
    decreases s.len(),
{
    let all = pieces(s, sep);
    if s.len() == 0 {
        assert(joined(all, seq![sep]) =~= s);
    } else {
        let less = s.drop_last();
        let before = pieces(less, sep);
        lemma_pieces(less, sep);
        assert(s =~= less.push(s.last()));
        if s.last() == sep {
            assert(all.drop_last() =~= before);
            assert(joined(all, seq![sep]) =~= s);
        } else {
            let grown = before.last().push(s.last());
            assert(all.drop_last() =~= before.drop_last());
            assert(all.last() == grown);
            assert(!grown.contains(sep)) by {
                if grown.contains(sep) {
                    let k = choose|k: int| 0 <= k < grown.len() && grown[k] == sep;
                    assert(before.last()[k] == sep);
                    assert(before[before.len() - 1].contains(sep));
                }
            }
            assert forall|k: int| 0 <= k < all.len() implies !(#[trigger] all[k]).contains(sep) by {
                if k < before.len() - 1 {
                    assert(all[k] == before[k]);
                }
            }
            if before.len() == 1 {
                assert(joined(all, seq![sep]) =~= s);
            } else {
                assert(joined(all, seq![sep]) =~= joined(before.drop_last(), seq![sep]) + seq![sep]
                    + grown);
                assert(joined(before, seq![sep]) =~= joined(before.drop_last(), seq![sep])
                    + seq![sep] + before.last());
                assert(joined(all, seq![sep]) =~= s);
            }
        }
    }
}

/// The number that digits stand for.
pub open spec fn number_of(digits: Seq<char>) -> int
    decreases digits.len(),
{
    if digits.len() == 0 {
        0
    } else {
        number_of(digits.drop_last()) * 10 + (digits.last() as int - '0' as int)
    }
}

/// The digits of a number stand for it, and all of them are digits.
pub proof fn decimals_stand_for_their_number(n: u64, r: String)
    requires
        call_ensures(to_decimal, (n,), r),
    ensures
        number_of(r@) == n,
        r@.len() > 0,
        forall|k: int| 0 <= k < r@.len() ==> '0' <= #[trigger] r@[k] && r@[k] <= '9',
{
    lemma_decimal(n as nat);
}

/// The digits of a number stand for it.
pub proof fn lemma_decimal(n: nat)
    ensures
        number_of(decimal(n)) == n,
        decimal(n).len() > 0,
        forall|k: int| 0 <= k < decimal(n).len() ==> '0' <= #[trigger] decimal(n)[k] && decimal(n)[k]
            <= '9',
    decreases n,
{
    let all = decimal(n);
    if n < 10 {
        assert(all.drop_last() =~= Seq::<char>::empty());
        assert(number_of(Seq::<char>::empty()) == 0);
    } else {
        lemma_decimal(n / 10);
        assert(all.drop_last() =~= decimal(n / 10));
    }
}

/// Whether one text is another but for letters of another case: a small letter of
/// the first may be the capital one in the second.
pub open spec fn is_capital_of(small: Seq<char>, capital: Seq<char>) -> bool {
    small.len() == capital.len() && forall|k: int|
        0 <= k < small.len() ==> if 'a' <= #[trigger] small[k] && small[k] <= 'z' {
            capital[k] as int == small[k] as int - 32
        } else {
            capital[k] == small[k]
        }
}

/// Raising a text changes its small letters into capitals and nothing else.
pub proof fn raising_changes_small_letters_only(s: &str, r: String)
    requires
        call_ensures(to_upper, (s,), r),
    ensures
        is_capital_of(s@, r@),
{
    lemma_raised(s@);
}

/// A raised text is the capital form of the text.
pub proof fn lemma_raised(s: Seq<char>)
    ensures
        is_capital_of(s, raised(s)),
        forall|other: Seq<char>| #[trigger] is_capital_of(s, other) ==> other == raised(s),
{
    assert forall|other: Seq<char>| #[trigger] is_capital_of(s, other) implies other == raised(s) by {
        assert(other =~= raised(s));
    }
}

/// Lowering a text changes its capital letters into small ones and nothing else.
pub proof fn lowering_changes_capital_letters_only(s: &str, r: String)
    requires
        call_ensures(to_lower, (s,), r),
    ensures
        r@.len() == s@.len(),
        forall|k: int|
            0 <= k < s@.len() ==> if 'A' <= #[trigger] s@[k] && s@[k] <= 'Z' {
                r@[k] as int == s@[k] as int + 32
            } else {
                r@[k] == s@[k]
            },
{
}

/// What is mentioned by a part is mentioned by the whole.
pub proof fn mentions_carry_over(whole: Seq<char>, part: Seq<char>, inner: Seq<char>)
    requires
        mentions(whole, part),
        mentions(part, inner),
    ensures
        mentions(whole, inner),
{
    let (a, b) = choose|a: Seq<char>, b: Seq<char>| whole == #[trigger] enclosed(a, part, b);
    let (c, d) = choose|c: Seq<char>, d: Seq<char>| part == #[trigger] enclosed(c, inner, d);
    assert(whole =~= enclosed(a + c, inner, d + b));
}

/// Texts that are joined mention each of them.
pub proof fn a_join_mentions_every_text(list: Seq<Seq<char>>, sep: Seq<char>, k: int)
    requires
        0 <= k < list.len(),
    ensures
        mentions(joined(list, sep), list[k]),
    decreases list.len(),
{
    if list.len() == 1 {
        what_is_written_is_mentioned(Seq::empty(), list[k], Seq::empty());
    } else {
        let front = joined(list.drop_last(), sep);
        if k == list.len() - 1 {
            what_is_written_is_mentioned(front + sep, list[k], Seq::empty());
        } else {
            a_join_mentions_every_text(list.drop_last(), sep, k);
            what_is_written_is_mentioned(Seq::empty(), front, sep + list.last());
            assert(joined(list, sep) =~= front + (sep + list.last()));
            mentions_carry_over(joined(list, sep), front, list[k]);
        }
    }
}

/// Trimming the edges takes characters of the set away, from both ends and all of
/// them, and nothing else.
pub proof fn trimming_edges_takes_only_the_set(s: &str, set: Vec<char>, r: String)
    requires
        call_ensures(trim_edges_of, (s, &set), r),
    ensures
        exists|from: int, to: int|
            #![trigger s@.subrange(from, to)]
            0 <= from <= to <= s@.len() && r@ == s@.subrange(from, to) && (forall|k: int|
                0 <= k < from || to <= k < s@.len() ==> set@.contains(#[trigger] s@[k])) && (from
                < to ==> !set@.contains(s@[from]) && !set@.contains(s@[to - 1])),
{
    lemma_edges_trimmed(s@, set@);
}

/// What trimming the edges leaves.
pub proof fn lemma_edges_trimmed(s: Seq<char>, set: Seq<char>)
    ensures
        exists|from: int, to: int|
            #![trigger s.subrange(from, to)]
            0 <= from <= to <= s.len() && edges_trimmed(s, set) == s.subrange(from, to) && (
            forall|k: int| 0 <= k < from || to <= k < s.len() ==> set.contains(#[trigger] s[k])) && (
            from < to ==> !set.contains(s[from]) && !set.contains(s[to - 1])),
{
    let rest = start_trimmed(s, set);
    let from = leading(s, set, 0);
    lemma_edges(s, set, 0, 0);
    lemma_leading(s, set, 0);
    lemma_edges(rest, set, 0, rest.len() as int);
    lemma_trailing(rest, set, rest.len() as int);
    let to = s.len() - trailing(rest, set, rest.len() as int);
    assert(edges_trimmed(s, set) =~= s.subrange(from, to));
    assert forall|k: int| 0 <= k < from || to <= k < s.len() implies set.contains(#[trigger] s[k]) by {
        if k >= to {
            assert(rest[k - from] == s[k]);
        }
    }
    if from < to {
        assert(rest[to - 1 - from] == s[to - 1]);
    }
}

/// What leads is of the set, and what follows it is not.
proof fn lemma_leading(s: Seq<char>, set: Seq<char>, from: int)
    requires
        0 <= from <= s.len(),
    ensures
        0 <= leading(s, set, from) <= s.len() - from,
        forall|k: int| from <= k < from + leading(s, set, from) ==> set.contains(#[trigger] s[k]),
        from + leading(s, set, from) < s.len() ==> !set.contains(
            s[from + leading(s, set, from)],
        ),
    decreases s.len() - from,
{
    if from < s.len() && set.contains(s[from]) {
        lemma_leading(s, set, from + 1);
    }
}

/// What trails is of the set, and what stands before it is not.
proof fn lemma_trailing(s: Seq<char>, set: Seq<char>, to: int)
    requires
        0 <= to <= s.len(),
    ensures
        0 <= trailing(s, set, to) <= to,
        forall|k: int| to - trailing(s, set, to) <= k < to ==> set.contains(#[trigger] s[k]),
        to - trailing(s, set, to) > 0 ==> !set.contains(s[to - trailing(s, set, to) - 1]),
    decreases to,
{
    if to > 0 && set.contains(s[to - 1]) {
        lemma_trailing(s, set, to - 1);
    }
}

/// The last piece is what stands behind the last separator.
pub proof fn the_last_piece_stands_behind_the_last_separator(
    head: Seq<char>,
    sep: char,
    tail: Seq<char>,
)
    requires
        !tail.contains(sep),
    ensures
        pieces(head + seq![sep] + tail, sep).last() == tail,
    decreases tail.len(),
{
    let whole = head + seq![sep] + tail;
    if tail.len() == 0 {
        assert(whole.drop_last() =~= head);
        assert(whole.last() == sep);
        assert(tail =~= Seq::empty());
    } else {
        let less = tail.drop_last();
        assert(whole.drop_last() =~= head + seq![sep] + less);
        assert(whole.last() == tail.last());
        assert(tail.contains(tail.last()));
        if less.contains(sep) {
            let k = choose|k: int| 0 <= k < less.len() && less[k] == sep;
            assert(tail[k] == sep);
        }
        the_last_piece_stands_behind_the_last_separator(head, sep, less);
        lemma_pieces(whole.drop_last(), sep);
        assert(tail =~= less.push(tail.last()));
    }
}

/// What a text mentions is mentioned by every longer one.
pub proof fn a_longer_text_mentions_as_much(text: Seq<char>, part: Seq<char>, more: Seq<char>)
    requires
        mentions(text, part),
    ensures
        mentions(text + more, part),
{
    what_is_written_is_mentioned(Seq::empty(), text, more);
    mentions_carry_over(text + more, text, part);
}

} // verus!

//! Names for cache entries: a readable beginning and a hash that tells apart
//! what begins alike.
use crate::digest::{collect_bytes, collected, digest_of, new_hasher, sha256};
use crate::text::{
    edges_trimmed, from_range, hex, lemma_hex_len, opt_str, push_char, to_chars, to_hex,
    trim_edges_of,
};
use vstd::prelude::*;
use vstd::string::*;
use vstd::utf8::*;

verus! {

/// How long the readable beginning may be.
pub const SLUG_LEN: usize = 40;

/// Whether a character may stand in a file's name as it is.
pub open spec fn is_plain(c: char) -> bool {
    ('a' <= c && c <= 'z') || ('A' <= c && c <= 'Z') || ('0' <= c && c <= '9') || c == '.' || c
        == '-' || c == '_'
}

/// A text with every character that may not stand in a file's name replaced.
pub open spec fn cleaned(raw: Seq<char>) -> Seq<char> {
    raw.map_values(
        |c: char|
            if is_plain(c) {
                c
            } else {
                '_'
            },
    )
}

/// A cleaned text without the replacements at its edges.
pub open spec fn tidied(raw: Seq<char>) -> Seq<char> {
    edges_trimmed(cleaned(raw), seq!['_'])
}

/// At most the first forty characters of a text.
pub open spec fn cut(s: Seq<char>) -> Seq<char> {
    if s.len() > SLUG_LEN {
        s.take(SLUG_LEN as int)
    } else {
        s
    }
}

/// The readable beginning of a name.
pub open spec fn slug_of(raw: Seq<char>, fallback: Seq<char>) -> Seq<char> {
    if tidied(raw).len() == 0 {
        fallback
    } else {
        cut(tidied(raw))
    }
}

/// A cleaned text without the replacements at its edges.
pub fn tidy(raw: &str) -> (r: String)
    ensures
        r@ == tidied(raw@),
{
    let chars = to_chars(raw);
    let mut out: String = String::new();
    let mut i: usize = 0;
    while i < chars.len()
        invariant
            i <= chars@.len(),
            out@ == cleaned(chars@).take(i as int),
        decreases chars.len() - i,
    {
        let c = chars[i];
        let plain: bool = ('a' <= c && c <= 'z') || ('A' <= c && c <= 'Z') || ('0' <= c && c <= '9')
            || c == '.' || c == '-' || c == '_';
        let d: char = if plain {
            c
        } else {
            '_'
        };
        push_char(&mut out, d);
        proof {
            assert(cleaned(chars@).take(i + 1) =~= cleaned(chars@).take(i as int).push(d));
        }
        i += 1;
    }
    proof {
        assert(cleaned(chars@).take(chars@.len() as int) =~= cleaned(chars@));
    }
    let mut set: Vec<char> = Vec::new();
    set.push('_');
    proof {
        assert(set@ =~= seq!['_']);
    }
    trim_edges_of(out.as_str(), &set)
}

/// The readable beginning of a name; `fallback` where nothing readable is left.
pub fn slug(raw: &str, fallback: &str) -> (r: String)
    ensures
        r@ == slug_of(raw@, fallback@),
{
    let tidy = tidy(raw);
    if tidy.as_str().is_empty() {
        return fallback.to_owned();
    }
    let chars = to_chars(tidy.as_str());
    if chars.len() > SLUG_LEN {
        proof {
            assert(chars@.take(SLUG_LEN as int) =~= chars@.subrange(0, SLUG_LEN as int));
        }
        return from_range(&chars, 0, SLUG_LEN);
    }
    tidy
}

/// What is hashed for a name: the URL, a zero byte, and the qualifier.
pub open spec fn hashed_bytes(url: Seq<char>, qualifier: Option<Seq<char>>) -> Seq<u8> {
    encode_utf8(url).push(0u8) + encode_utf8(
        match qualifier {
            Some(text) => text,
            None => ""@,
        },
    )
}

/// The hash of a name: the first sixteen digits of a SHA-256.
pub open spec fn hash_text(url: Seq<char>, qualifier: Option<Seq<char>>) -> Seq<char> {
    hex(sha256(hashed_bytes(url, qualifier)).take(8))
}

/// The hash of a name: it tells apart what one URL holds under different
/// qualifiers (commits, refs, checksums).
pub fn short_hash(url: &str, qualifier: Option<&str>) -> (r: String)
    ensures
        r@ == hash_text(url@, opt_str(qualifier)),
        r@.len() == 16,
{
    let mut hasher = new_hasher();
    collect_bytes(&mut hasher, url.as_bytes());
    let separator: [u8; 1] = [0u8];
    collect_bytes(&mut hasher, separator.as_slice());
    let text: &str = match qualifier {
        Some(text) => text,
        None => "",
    };
    collect_bytes(&mut hasher, text.as_bytes());
    proof {
        assert(collected(hasher) =~= hashed_bytes(url@, opt_str(qualifier)));
    }
    let full = digest_of(&hasher);
    let mut start: Vec<u8> = Vec::new();
    let mut i: usize = 0;
    while i < 8
        invariant
            i <= 8,
            full@.len() == 32,
            start@ == full@.take(i as int),
        decreases 8 - i,
    {
        start.push(full[i]);
        proof {
            assert(full@.take(i + 1) =~= full@.take(i as int).push(full@[i as int]));
        }
        i += 1;
    }
    proof {
        lemma_hex_len(start@);
    }
    to_hex(start.as_slice())
}

/// The name of an entry.
pub open spec fn entry_name(
    url: Seq<char>,
    qualifier: Option<Seq<char>>,
    fallback: Seq<char>,
) -> Seq<char> {
    slug_of(url, fallback) + "-"@ + hash_text(url, qualifier)
}

/// The name of the entry for what a URL holds under a qualifier.
pub fn entry_for(url: &str, qualifier: Option<&str>, fallback: &str) -> (r: String)
    ensures
        r@ == entry_name(url@, opt_str(qualifier), fallback@),
{
    let mut name = slug(url, fallback);
    name.append("-");
    name.append(short_hash(url, qualifier).as_str());
    name
}

/// The readable beginning is at most forty characters long and holds only
/// characters that may stand in a file's name, where the fallback is such a
/// text too.
pub proof fn a_slug_is_a_plain_name(raw: Seq<char>, fallback: Seq<char>, k: int)
    requires
        fallback.len() <= SLUG_LEN,
        forall|i: int| 0 <= i < fallback.len() ==> is_plain(#[trigger] fallback[i]),
        0 <= k < slug_of(raw, fallback).len(),
    ensures
        slug_of(raw, fallback).len() <= SLUG_LEN,
        is_plain(slug_of(raw, fallback)[k]),
{
    if tidied(raw).len() > 0 {
        let start = crate::text::leading(cleaned(raw), seq!['_'], 0);
        crate::text::lemma_edges(cleaned(raw), seq!['_'], 0, 0);
        let rest = cleaned(raw).skip(start);
        crate::text::lemma_edges(rest, seq!['_'], 0, rest.len() as int);
        assert(slug_of(raw, fallback)[k] == cleaned(raw)[start + k]);
    }
}

/// Whether every character of a text is plain, and stands at its place in the raw text
/// from `from` on, or is an underscore where a character stood that is not plain.
pub open spec fn is_tidy_from(raw: Seq<char>, out: Seq<char>, from: int) -> bool {
    0 <= from <= raw.len() - out.len() && forall|k: int|
        0 <= k < out.len() ==> is_plain(#[trigger] out[k]) && (out[k] == raw[from + k] || out[k]
            == '_' && !is_plain(raw[from + k]))
}

/// Cleaning and trimming leave a plain text that neither begins nor ends with an
/// underscore: every character of it stands at its place in the raw text, or where a
/// character stood that may not stand in a file's name.
pub proof fn a_tidy_text_is_plain(raw: &str, r: String)
    requires
        call_ensures(tidy, (raw,), r),
    ensures
        r@.len() > 0 ==> r@[0] != '_' && r@.last() != '_',
        exists|from: int| #[trigger] is_tidy_from(raw@, r@, from),
{
    lemma_tidied(raw@);
}

/// What cleaning and trimming leave.
proof fn lemma_tidied(raw: Seq<char>)
    ensures
        tidied(raw).len() > 0 ==> tidied(raw)[0] != '_' && tidied(raw).last() != '_',
        exists|from: int| #[trigger] is_tidy_from(raw, tidied(raw), from),
{
    let clean = cleaned(raw);
    let set = seq!['_'];
    crate::text::lemma_edges_trimmed(clean, set);
    let (from, to) = choose|from: int, to: int|
        #![trigger clean.subrange(from, to)]
        0 <= from <= to <= clean.len() && edges_trimmed(clean, set) == clean.subrange(from, to) && (
        forall|k: int| 0 <= k < from || to <= k < clean.len() ==> set.contains(
            #[trigger] clean[k],
        )) && (from < to ==> !set.contains(clean[from]) && !set.contains(clean[to - 1]));
    let out = tidied(raw);
    assert(set[0] == '_');
    assert(set.contains('_'));
    if out.len() > 0 {
        assert(out[0] == clean[from]);
        assert(out.last() == clean[to - 1]);
    }
    assert(0 <= from <= raw.len() - out.len());
    assert forall|k: int| 0 <= k < out.len() implies is_plain(#[trigger] out[k]) && (out[k]
        == raw[from + k] || out[k] == '_' && !is_plain(raw[from + k])) by {
        assert(out[k] == clean[from + k]);
    }
    assert(is_tidy_from(raw, out, from));
}

/// Whether a text is a plain name as it stands.
pub open spec fn is_plain_name(s: Seq<char>) -> bool {
    &&& s.len() > 0 && s[0] != '_' && s.last() != '_'
    &&& forall|k: int| 0 <= k < s.len() ==> is_plain(#[trigger] s[k])
}

/// A plain name is its own tidy text, and its own slug where it is short enough; of a
/// longer one the first forty characters are kept.
pub proof fn a_plain_name_is_its_own_slug(raw: &str, fallback: &str, r: String)
    requires
        call_ensures(slug, (raw, fallback), r),
        is_plain_name(raw@),
    ensures
        raw@.len() <= 40 ==> r@ == raw@,
        raw@.len() > 40 ==> r@.len() == 40 && r@ == raw@.take(40),
{
    lemma_plain_name(raw@);
}

/// A plain name is its own tidy text.
pub proof fn lemma_plain_name(raw: Seq<char>)
    requires
        is_plain_name(raw),
    ensures
        tidied(raw) == raw,
{
    let clean = cleaned(raw);
    assert(clean =~= raw);
    let set = seq!['_'];
    crate::text::lemma_edges_trimmed(clean, set);
    let (from, to) = choose|from: int, to: int|
        #![trigger clean.subrange(from, to)]
        0 <= from <= to <= clean.len() && edges_trimmed(clean, set) == clean.subrange(from, to) && (
        forall|k: int| 0 <= k < from || to <= k < clean.len() ==> set.contains(
            #[trigger] clean[k],
        )) && (from < to ==> !set.contains(clean[from]) && !set.contains(clean[to - 1]));
    if from > 0 || to == 0 {
        assert(set.contains(clean[0]));
    }
    if to < clean.len() {
        assert(set.contains(clean[clean.len() - 1]));
    }
    assert(clean.subrange(0, clean.len() as int) =~= raw);
}

/// Where nothing readable is left, the fallback stands in.
pub proof fn a_name_is_never_lost(raw: &str, fallback: &str, r: String)
    requires
        call_ensures(slug, (raw, fallback), r),
    ensures
        fallback@.len() > 0 ==> r@.len() > 0,
        (forall|k: int| 0 <= k < raw@.len() ==> !is_plain(#[trigger] raw@[k])) ==> r@ == fallback@,
{
    if forall|k: int| 0 <= k < raw@.len() ==> !is_plain(#[trigger] raw@[k]) {
        lemma_tidied(raw@);
        if tidied(raw@).len() > 0 {
            let from = choose|from: int| #[trigger] is_tidy_from(raw@, tidied(raw@), from);
            assert(tidied(raw@)[0] == '_' || tidied(raw@)[0] == raw@[from + 0]);
            assert(!is_plain(raw@[from + 0]));
        }
    }
}

/// The hash of a name is the beginning of the SHA-256 of the URL, a zero byte and the
/// qualifier, and the name of an entry ends with it.
pub proof fn an_entry_ends_with_its_hash(
    url: &str,
    qualifier: Option<&str>,
    fallback: &str,
    r: String,
)
    requires
        call_ensures(entry_for, (url, qualifier, fallback), r),
    ensures
        ({
            let told = match qualifier {
                Some(text) => encode_utf8(text@),
                None => encode_utf8(""@),
            };
            let digest = sha256(encode_utf8(url@) + seq![0u8] + told);
            digest.len() == 32 ==> r@.len() >= 17 && r@[r@.len() - 17] == '-' && r@.skip(
                r@.len() - 16,
            ) == hex(digest.take(8))
        }),
{
    let told = match qualifier {
        Some(text) => encode_utf8(text@),
        None => encode_utf8(""@),
    };
    let bytes = encode_utf8(url@) + seq![0u8] + told;
    assert(hashed_bytes(url@, opt_str(qualifier)) =~= bytes);
    lemma_hex_len(sha256(bytes).take(8));
    reveal_strlit("-");
    let hash = hash_text(url@, opt_str(qualifier));
    let head = slug_of(url@, fallback@);
    if sha256(bytes).len() == 32 {
        assert(r@.skip(r@.len() - 16) =~= hash);
        assert(r@[r@.len() - 17] == '-');
    }
}

} // verus!

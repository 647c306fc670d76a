//! Archives that are downloaded: what their files are called, and how their
//! checksums are checked.
use crate::archive::{is_archive, is_supported_http_archive, SourceUrl};
use crate::cache::key::{is_plain, is_plain_name, lemma_plain_name, tidied, tidy};
use crate::text::{
    a_longer_text_mentions_as_much, decimal, digit, has_prefix, hex, lemma_hex_len, mentions,
    pieces, split, str_eq, the_last_piece_stands_behind_the_last_separator, to_decimal, to_hex,
    what_is_written_is_mentioned,
};
use vstd::prelude::*;
use vstd::string::*;
use vstd::utf8::*;

verus! {

/// A name for a downloaded file: characters that may not stand in one are
/// replaced.
pub fn sanitize_http_filename(name: &str) -> (r: String)
    ensures
        r@ == if tidied(name@).len() == 0 {
            "bundle.tar.zst"@
        } else {
            tidied(name@)
        },
{
    let name = tidy(name);
    if name.as_str().is_empty() {
        "bundle.tar.zst".to_owned()
    } else {
        name
    }
}

/// The last segment of a path: what stands behind its last slash.
pub open spec fn last_segment(path: Seq<char>) -> Seq<char> {
    pieces(path, '/').last()
}

/// The name for the file that a URL leads to.
pub open spec fn file_text(path: Seq<char>) -> Seq<char> {
    let segment = tidied(last_segment(path));
    if has_prefix(path, "/"@) && segment.len() > 0 {
        segment
    } else {
        "bundle.tar.zst"@
    }
}

/// The name for the file that a URL leads to: the last segment of its path,
/// sanitized.
pub fn bundle_file_name(url: &SourceUrl) -> (r: String)
    ensures
        r@ == file_text(url.path@),
{
    if !crate::text::starts_with(url.path.as_str(), "/") {
        return "bundle.tar.zst".to_owned();
    }
    let parts = split(url.path.as_str(), '/');
    let at: usize = parts.len() - 1;
    proof {
        assert(pieces(url.path@, '/').last() == crate::text::texts(parts@)[at as int]);
    }
    sanitize_http_filename(parts[at].as_str())
}

/// Whether a byte is a hexadecimal digit.
pub open spec fn is_hex_byte(b: u8) -> bool {
    (48 <= b && b <= 57) || (97 <= b && b <= 102) || (65 <= b && b <= 70)
}

/// The value of a hexadecimal digit.
pub open spec fn nibble(b: u8) -> int {
    if b <= 57 {
        b - 48
    } else if b <= 70 {
        b - 55
    } else {
        b - 87
    }
}

/// The bytes that pairs of hexadecimal digits stand for.
pub open spec fn unhexed(digits: Seq<u8>) -> Seq<u8> {
    Seq::new(
        digits.len() / 2,
        |i: int| (nibble(digits[2 * i]) * 16 + nibble(digits[2 * i + 1])) as u8,
    )
}

/// Whether a text that is as long as a checksum consists of hexadecimal digits,
/// as every checksum that a configuration holds does.
pub open spec fn is_checksum_or_short(text: Seq<char>) -> bool {
    encode_utf8(text).len() == 64 ==> forall|i: int|
        0 <= i < 64 ==> is_hex_byte(#[trigger] encode_utf8(text)[i])
}

/// The value of a hexadecimal digit.
fn digit_value(b: u8) -> (r: u8)
    requires
        is_hex_byte(b),
    ensures
        r == nibble(b),
        r < 16,
{
    if b <= 57 {
        b - 48
    } else if b <= 70 {
        b - 55
    } else {
        b - 87
    }
}

/// The refusal of a text that is not as long as a checksum.
pub open spec fn length_text(input: Seq<char>) -> Seq<char> {
    "expected 64 hex characters, got "@ + decimal(encode_utf8(input).len())
}

/// The bytes of a checksum, or the refusal of a text of another length.
pub fn decode_sha256_hex(input: &str) -> (r: Result<Vec<u8>, String>)
    requires
        is_checksum_or_short(input@),
    ensures
        match r {
            Ok(bytes) => encode_utf8(input@).len() == 64 && bytes@ == unhexed(encode_utf8(input@)),
            Err(text) => encode_utf8(input@).len() != 64 && text@ == length_text(input@),
        },
{
    let bytes = input.as_bytes();
    if bytes.len() != 64 {
        let mut text: String = "expected 64 hex characters, got ".to_owned();
        text.append(to_decimal(bytes.len() as u64).as_str());
        return Err(text);
    }
    let mut output: Vec<u8> = Vec::new();
    let mut i: usize = 0;
    while i < 32
        invariant
            i <= 32,
            bytes@ == encode_utf8(input@),
            bytes@.len() == 64,
            forall|k: int| 0 <= k < 64 ==> is_hex_byte(#[trigger] bytes@[k]),
            output@.len() == i,
            forall|k: int| 0 <= k < i ==> #[trigger] output@[k] == unhexed(bytes@)[k],
        decreases 32 - i,
    {
        let high: u8 = digit_value(bytes[2 * i]);
        let low: u8 = digit_value(bytes[2 * i + 1]);
        output.push(high * 16 + low);
        i += 1;
    }
    proof {
        assert(output@ =~= unhexed(bytes@));
    }
    Ok(output)
}

/// Bytes as hexadecimal digits.
pub fn encode_hex(bytes: &[u8]) -> (r: String)
    ensures
        r@ == hex(bytes@),
{
    to_hex(bytes)
}

/// The digits of bytes, one by one.
proof fn lemma_hex_digits(bytes: Seq<u8>, i: int)
    requires
        0 <= i < bytes.len(),
    ensures
        hex(bytes).len() == 2 * bytes.len(),
        hex(bytes)[2 * i] == digit((bytes[i] / 16) as int),
        hex(bytes)[2 * i + 1] == digit((bytes[i] % 16) as int),
    decreases bytes.len(),
{
    lemma_hex_len(bytes);
    lemma_hex_len(bytes.drop_last());
    if i < bytes.len() - 1 {
        lemma_hex_digits(bytes.drop_last(), i);
    }
}

/// Decoding what encoding wrote gives the bytes back, and refuses none of it.
pub proof fn decoding_undoes_encoding(bytes: Seq<u8>)
    requires
        bytes.len() == 32,
    ensures
        encode_utf8(hex(bytes)).len() == 64,
        is_checksum_or_short(hex(bytes)),
        unhexed(encode_utf8(hex(bytes))) == bytes,
{
    let text = hex(bytes);
    lemma_hex_len(bytes);
    assert forall|k: int| 0 <= k < text.len() implies '\0' <= #[trigger] text[k] <= '\u{7f}' by {
        lemma_hex_digits(bytes, k / 2);
        assert(k == 2 * (k / 2) || k == 2 * (k / 2) + 1);
    }
    is_ascii_chars_encode_utf8(text);
    assert forall|k: int| 0 <= k < 64 implies is_hex_byte(#[trigger] encode_utf8(text)[k]) by {
        lemma_hex_digits(bytes, k / 2);
        assert(text[k] as u8 == encode_utf8(text)[k]);
        assert(k == 2 * (k / 2) || k == 2 * (k / 2) + 1);
    }
    assert forall|i: int| 0 <= i < 32 implies unhexed(encode_utf8(text))[i] == bytes[i] by {
        lemma_hex_digits(bytes, i);
        assert(text[2 * i] as u8 == encode_utf8(text)[2 * i]);
        assert(text[2 * i + 1] as u8 == encode_utf8(text)[2 * i + 1]);
        assert(nibble(encode_utf8(text)[2 * i]) == bytes[i] / 16);
        assert(nibble(encode_utf8(text)[2 * i + 1]) == bytes[i] % 16);
    }
    assert(unhexed(encode_utf8(text)) =~= bytes);
}

/// Whether a checksum, where there is one, is a checksum or is refused for its
/// length.
pub open spec fn can_decode(expected: Option<&str>) -> bool {
    expected matches Some(text) ==> is_checksum_or_short(text@)
}

/// Checks the length of a checksum before anything is downloaded.
pub fn check_expected(url: &SourceUrl, expected: Option<&str>) -> (r: Result<
    Option<Vec<u8>>,
    String,
>)
    requires
        can_decode(expected),
    ensures
        match (expected, r) {
            (None, Ok(None)) => true,
            (Some(text), Ok(Some(bytes))) => encode_utf8(text@).len() == 64 && bytes@ == unhexed(
                encode_utf8(text@),
            ),
            (Some(text), Err(told)) => encode_utf8(text@).len() != 64 && told@
                == "Invalid SHA256 for "@ + url.text@ + ": "@ + length_text(text@),
            _ => false,
        },
{
    match expected {
        None => Ok(None),
        Some(text) => match decode_sha256_hex(text) {
            Ok(bytes) => Ok(Some(bytes)),
            Err(why) => {
                let mut told: String = "Invalid SHA256 for ".to_owned();
                told.append(url.text.as_str());
                told.append(": ");
                told.append(why.as_str());
                Err(told)
            },
        },
    }
}

/// Whether two byte strings are the same.
fn same_bytes(a: &Vec<u8>, b: &Vec<u8>) -> (r: bool)
    ensures
        r == (a@ == b@),
{
    if a.len() != b.len() {
        return false;
    }
    let mut i: usize = 0;
    while i < a.len()
        invariant
            i <= a@.len(),
            a@.len() == b@.len(),
            forall|k: int| 0 <= k < i ==> a@[k] == b@[k],
        decreases a.len() - i,
    {
        if a[i] != b[i] {
            return false;
        }
        i += 1;
    }
    proof {
        assert(a@ =~= b@);
    }
    true
}

/// The refusal of an archive with another checksum.
pub open spec fn checksum_mismatch_text(
    url: Seq<char>,
    expected: Seq<char>,
    computed: Seq<u8>,
) -> Seq<char> {
    "SHA256 checksum mismatch for "@ + url + ": expected "@ + expected + ", computed "@ + hex(
        computed,
    )
}

/// Compares a computed checksum with the one that is asked for.
pub fn check_digest(url: &SourceUrl, computed: &Vec<u8>, expected: &Vec<u8>, expected_text: &str) -> (r:
    Result<(), String>)
    ensures
        match r {
            Ok(_) => computed@ == expected@,
            Err(text) => computed@ != expected@ && text@ == checksum_mismatch_text(
                url.text@,
                expected_text@,
                computed@,
            ),
        },
{
    if same_bytes(computed, expected) {
        return Ok(());
    }
    let mut text: String = "SHA256 checksum mismatch for ".to_owned();
    text.append(url.text.as_str());
    text.append(": expected ");
    text.append(expected_text);
    text.append(", computed ");
    text.append(encode_hex(computed.as_slice()).as_str());
    Err(text)
}

/// The refusal of a URL that is not one of HTTP, or not that of an archive.
pub open spec fn source_refusal(url: SourceUrl) -> Option<Seq<char>> {
    if url.scheme@ != "http"@ && url.scheme@ != "https"@ {
        Some("HTTP source URL must use http or https (got scheme '"@ + url.scheme@ + "')"@)
    } else if !is_archive(url.path@) {
        Some("Only tar.zst (.tar.zstd/.tar.zst/.tzst) archives are supported for HTTP sources"@)
    } else {
        None
    }
}

/// Refuses a URL that is not one of HTTP, or not that of an archive.
pub fn check_http_source(url: &SourceUrl) -> (r: Result<(), String>)
    ensures
        match r {
            Ok(_) => source_refusal(*url) is None,
            Err(text) => source_refusal(*url) == Some(text@),
        },
{
    if !str_eq(url.scheme.as_str(), "http") && !str_eq(url.scheme.as_str(), "https") {
        let mut text: String = "HTTP source URL must use http or https (got scheme '".to_owned();
        text.append(url.scheme.as_str());
        text.append("')");
        return Err(text);
    }
    if !is_supported_http_archive(url) {
        return Err(
            "Only tar.zst (.tar.zstd/.tar.zst/.tzst) archives are supported for HTTP sources".to_owned(),
        );
    }
    Ok(())
}

/// The name of the directory that a download is made in.
pub fn staging_dir_name(timestamp: &str, id: &str) -> (r: String)
    ensures
        r@ == "node_add_"@ + timestamp@ + "_"@ + id@,
{
    let mut name: String = "node_add_".to_owned();
    name.append(timestamp);
    name.append("_");
    name.append(id);
    name
}

/// Why a download failed.
pub enum DownloadProblem {
    /// The server answered with this status.
    Status(u16),
    /// The request failed.
    Request(String),
    CreateFile { path: String, why: String },
    ReadBody(String),
    WriteFile { path: String, why: String },
    FlushFile { path: String, why: String },
    /// The archive could not be extracted.
    Extract(String),
    Join(String),
    BaseDir(String),
    StagingDir(String),
    ExtractDir(String),
}

/// The text of a `DownloadProblem`.
pub open spec fn download_text(url: Seq<char>, problem: DownloadProblem) -> Seq<char> {
    match problem {
        DownloadProblem::Status(code) => "Failed to download bundle from "@ + url
            + ": unexpected status code "@ + decimal(code as nat),
        DownloadProblem::Request(why) => "Failed to download bundle from "@ + url + ": "@ + why@,
        DownloadProblem::CreateFile { path, why } => "Failed to create bundle file "@ + path@
            + ": "@ + why@,
        DownloadProblem::ReadBody(why) => "Failed to read response body from "@ + url + ": "@
            + why@,
        DownloadProblem::WriteFile { path, why } => "Failed to write bundle file "@ + path@ + ": "@
            + why@,
        DownloadProblem::FlushFile { path, why } => "Failed to flush bundle file "@ + path@ + ": "@
            + why@,
        DownloadProblem::Extract(why) => why@ + " (source: "@ + url + ")"@,
        DownloadProblem::Join(why) => "Failed to join HTTP download task: "@ + why@,
        DownloadProblem::BaseDir(why) => "Failed to create HTTP download directory: "@ + why@,
        DownloadProblem::StagingDir(why) => "Failed to create HTTP staging directory: "@ + why@,
        DownloadProblem::ExtractDir(why) => "Failed to create bundle extract directory: "@ + why@,
    }
}

/// Four texts in a row.
fn concat(a: &str, b: &str, c: &str, d: &str) -> (r: String)
    ensures
        r@ == a@ + b@ + c@ + d@,
{
    let mut text: String = a.to_owned();
    text.append(b);
    text.append(c);
    text.append(d);
    text
}

/// Two texts in a row.
fn pair(a: &str, b: &str) -> (r: String)
    ensures
        r@ == a@ + b@,
{
    let mut text: String = a.to_owned();
    text.append(b);
    text
}

/// The text of a `DownloadProblem`.
pub fn download_failure(url: &SourceUrl, problem: &DownloadProblem) -> (r: String)
    ensures
        r@ == download_text(url.text@, *problem),
{
    let url = url.text.as_str();
    match problem {
        DownloadProblem::Status(code) => concat(
            "Failed to download bundle from ",
            url,
            ": unexpected status code ",
            to_decimal(*code as u64).as_str(),
        ),
        DownloadProblem::Request(why) => concat(
            "Failed to download bundle from ",
            url,
            ": ",
            why.as_str(),
        ),
        DownloadProblem::CreateFile { path, why } => concat(
            "Failed to create bundle file ",
            path.as_str(),
            ": ",
            why.as_str(),
        ),
        DownloadProblem::ReadBody(why) => concat(
            "Failed to read response body from ",
            url,
            ": ",
            why.as_str(),
        ),
        DownloadProblem::WriteFile { path, why } => concat(
            "Failed to write bundle file ",
            path.as_str(),
            ": ",
            why.as_str(),
        ),
        DownloadProblem::FlushFile { path, why } => concat(
            "Failed to flush bundle file ",
            path.as_str(),
            ": ",
            why.as_str(),
        ),
        DownloadProblem::Extract(why) => concat(why.as_str(), " (source: ", url, ")"),
        DownloadProblem::Join(why) => pair("Failed to join HTTP download task: ", why.as_str()),
        DownloadProblem::BaseDir(why) => pair(
            "Failed to create HTTP download directory: ",
            why.as_str(),
        ),
        DownloadProblem::StagingDir(why) => pair(
            "Failed to create HTTP staging directory: ",
            why.as_str(),
        ),
        DownloadProblem::ExtractDir(why) => pair(
            "Failed to create bundle extract directory: ",
            why.as_str(),
        ),
    }
}

/// A line about a download's progress. Sizes come in words; `percent` goes with
/// a total.
pub fn download_line(downloaded: &str, total: Option<(&str, u64)>) -> (r: String)
    ensures
        r@ == match total {
            Some((size, percent)) => "Downloading: "@ + downloaded@ + " / "@ + size@ + " ("@
                + decimal(percent as nat) + "%)"@,
            None => "Downloading: "@ + downloaded@,
        },
{
    let mut line: String = "Downloading: ".to_owned();
    line.append(downloaded);
    if let Some((size, percent)) = total {
        line.append(" / ");
        line.append(size);
        line.append(" (");
        line.append(to_decimal(percent).as_str());
        line.append("%)");
    }
    line
}

/// A downloaded file is named by what stands behind the last slash of its URL's path,
/// where that is a plain name; a name is never empty.
pub proof fn a_download_is_named_by_the_end_of_its_path(
    url: SourceUrl,
    r: String,
    head: Seq<char>,
    name: Seq<char>,
)
    requires
        call_ensures(bundle_file_name, (&url,), r),
    ensures
        r@.len() > 0,
        url.path@ == "/"@ + head + "/"@ + name && is_plain_name(name) ==> r@ == name,
        url.path@ == "/"@ + name && is_plain_name(name) ==> r@ == name,
{
    reveal_strlit("/");
    reveal_strlit("bundle.tar.zst");
    assert("/"@ =~= seq!['/']);
    if is_plain_name(name) {
        lemma_plain_name(name);
        if name.contains('/') {
            let k = choose|k: int| 0 <= k < name.len() && name[k] == '/';
            assert(is_plain(name[k]));
        }
        if url.path@ == "/"@ + head + "/"@ + name {
            let before = "/"@ + head;
            the_last_piece_stands_behind_the_last_separator(before, '/', name);
            assert(url.path@ =~= before + seq!['/'] + name);
            assert(url.path@.take(1) =~= "/"@);
        }
        if url.path@ == "/"@ + name {
            the_last_piece_stands_behind_the_last_separator(Seq::empty(), '/', name);
            assert(url.path@ =~= Seq::<char>::empty() + seq!['/'] + name);
            assert(url.path@.take(1) =~= "/"@);
        }
    }
}

/// An archive passes exactly where every byte of its checksum is the one asked for, and
/// the refusal has both.
pub proof fn only_the_same_checksum_passes(
    url: SourceUrl,
    computed: Vec<u8>,
    expected: Vec<u8>,
    expected_text: &str,
    r: Result<(), String>,
)
    requires
        call_ensures(check_digest, (&url, &computed, &expected, expected_text), r),
    ensures
        r is Ok <==> computed@.len() == expected@.len() && forall|k: int|
            0 <= k < computed@.len() ==> computed@[k] == expected@[k],
        r matches Err(text) ==> mentions(text@, expected_text@) && mentions(
            text@,
            hex(computed@),
        ),
{
    if computed@.len() == expected@.len() && forall|k: int|
        0 <= k < computed@.len() ==> computed@[k] == expected@[k] {
        assert(computed@ =~= expected@);
    }
    let head = "SHA256 checksum mismatch for "@ + url.text@ + ": expected "@;
    let told = hex(computed@);
    what_is_written_is_mentioned(head, expected_text@, ", computed "@);
    a_longer_text_mentions_as_much(head + expected_text@ + ", computed "@, expected_text@, told);
    what_is_written_is_mentioned(head + expected_text@ + ", computed "@, told, ""@);
}

/// A URL is taken for that of an archive only where it is one of HTTP or HTTPS.
pub proof fn only_http_urls_of_archives_pass(url: SourceUrl, r: Result<(), String>)
    requires
        call_ensures(check_http_source, (&url,), r),
    ensures
        r is Ok <==> (url.scheme@ == "http"@ || url.scheme@ == "https"@) && is_archive(url.path@),
{
}

/// A checksum is taken exactly where it has the length of one, and stands for the bytes
/// that it was written from.
pub proof fn a_checksum_stands_for_its_bytes(
    input: &str,
    r: Result<Vec<u8>, String>,
    bytes: Seq<u8>,
)
    requires
        is_checksum_or_short(input@),
        call_ensures(decode_sha256_hex, (input,), r),
    ensures
        r is Ok <==> encode_utf8(input@).len() == 64,
        bytes.len() == 32 && input@ == hex(bytes) ==> (r matches Ok(found) && found@ == bytes),
        r matches Ok(found) ==> found@.len() == 32,
{
    if bytes.len() == 32 {
        decoding_undoes_encoding(bytes);
    }
}

/// Whatever a download fails of is said.
pub proof fn a_failed_download_says_why(url: SourceUrl, problem: DownloadProblem, r: String)
    requires
        call_ensures(download_failure, (&url, &problem), r),
    ensures
        match problem {
            DownloadProblem::Status(code) => mentions(r@, decimal(code as nat)) && mentions(
                r@,
                url.text@,
            ),
            DownloadProblem::Request(why) => mentions(r@, why@) && mentions(r@, url.text@),
            DownloadProblem::CreateFile { path, why } => mentions(r@, why@) && mentions(r@, path@),
            DownloadProblem::ReadBody(why) => mentions(r@, why@) && mentions(r@, url.text@),
            DownloadProblem::WriteFile { path, why } => mentions(r@, why@) && mentions(r@, path@),
            DownloadProblem::FlushFile { path, why } => mentions(r@, why@) && mentions(r@, path@),
            DownloadProblem::Extract(why) => mentions(r@, why@),
            DownloadProblem::Join(why) => mentions(r@, why@),
            DownloadProblem::BaseDir(why) => mentions(r@, why@),
            DownloadProblem::StagingDir(why) => mentions(r@, why@),
            DownloadProblem::ExtractDir(why) => mentions(r@, why@),
        },
{
    match problem {
        DownloadProblem::Status(code) => {
            lemma_four(
                "Failed to download bundle from "@,
                url.text@,
                ": unexpected status code "@,
                decimal(code as nat),
            );
        },
        DownloadProblem::Request(why) => {
            lemma_four("Failed to download bundle from "@, url.text@, ": "@, why@);
        },
        DownloadProblem::CreateFile { path, why } => {
            lemma_four("Failed to create bundle file "@, path@, ": "@, why@);
        },
        DownloadProblem::ReadBody(why) => {
            lemma_four("Failed to read response body from "@, url.text@, ": "@, why@);
        },
        DownloadProblem::WriteFile { path, why } => {
            lemma_four("Failed to write bundle file "@, path@, ": "@, why@);
        },
        DownloadProblem::FlushFile { path, why } => {
            lemma_four("Failed to flush bundle file "@, path@, ": "@, why@);
        },
        DownloadProblem::Extract(why) => {
            what_is_written_is_mentioned(""@, why@, " (source: "@);
            a_longer_text_mentions_as_much(why@ + " (source: "@, why@, url.text@);
            a_longer_text_mentions_as_much(why@ + " (source: "@ + url.text@, why@, ")"@);
        },
        DownloadProblem::Join(why) => {
            what_is_written_is_mentioned("Failed to join HTTP download task: "@, why@, ""@);
        },
        DownloadProblem::BaseDir(why) => {
            what_is_written_is_mentioned("Failed to create HTTP download directory: "@, why@, ""@);
        },
        DownloadProblem::StagingDir(why) => {
            what_is_written_is_mentioned("Failed to create HTTP staging directory: "@, why@, ""@);
        },
        DownloadProblem::ExtractDir(why) => {
            what_is_written_is_mentioned("Failed to create bundle extract directory: "@, why@, ""@);
        },
    }
}

/// Four texts in a row mention the second and the fourth.
proof fn lemma_four(a: Seq<char>, b: Seq<char>, c: Seq<char>, d: Seq<char>)
    ensures
        mentions(a + b + c + d, b),
        mentions(a + b + c + d, d),
{
    what_is_written_is_mentioned(a, b, c);
    a_longer_text_mentions_as_much(a + b + c, b, d);
    what_is_written_is_mentioned(a + b + c, d, ""@);
}

} // verus!

use crate::model::GithubError;
use crate::text::lossy_string;
use vstd::prelude::*;
use vstd::string::StringExecFns;
use vstd::utf8::decode_utf8;
use vstd::utf8::decode_utf8_encode_utf8;
use vstd::utf8::encode_utf8;
use vstd::utf8::encode_utf8_decode_utf8;
use vstd::utf8::encode_utf8_valid_utf8;
use vstd::utf8::is_ascii_chars;
use vstd::utf8::is_ascii_chars_encode_utf8;
use vstd::utf8::is_char_boundary_iff_not_is_continuation_byte;
use vstd::utf8::is_char_boundary_start_end_of_seq;
use vstd::utf8::valid_utf8;
use vstd::utf8::valid_utf8_concat;
use vstd::utf8::valid_utf8_split;

verus! {

/// Whether a byte stands for itself in a percent-encoded path segment.
/// A byte is kept exactly when it is visible ASCII and not one of the
/// characters that are significant in a URL path segment: the quote, hash,
/// percent, slash, angle-bracket, question-mark, backslash, backquote and
/// brace characters. Every other byte is written as `%` and two hex digits.
pub open spec fn segment_byte_kept(b: u8) -> bool {
    0x21 <= b <= 0x7e && b != 0x22 && b != 0x23 && b != 0x25 && b != 0x2f && b != 0x3c && b
        != 0x3e && b != 0x3f && b != 0x5c && b != 0x60 && b != 0x7b && b != 0x7d
}

/// The ASCII code of the uppercase hex digit for a value below sixteen.
pub open spec fn hex_digit(n: u8) -> u8 {
    if n < 10 {
        (0x30 + n) as u8
    } else {
        (0x37 + n) as u8
    }
}

/// How one byte of a path segment is written: itself, or `%` and two
/// uppercase hex digits.
pub open spec fn encoded_byte(b: u8) -> Seq<u8> {
    if segment_byte_kept(b) {
        seq![b]
    } else {
        seq![0x25u8, hex_digit(b / 16), hex_digit(b % 16)]
    }
}

/// The percent-encoding of a whole byte sequence, byte by byte.
pub open spec fn encoded_bytes(bs: Seq<u8>) -> Seq<u8>
    decreases bs.len(),
{
    if bs.len() == 0 {
        Seq::empty()
    } else {
        encoded_bytes(bs.drop_last()) + encoded_byte(bs.last())
    }
}

/// A byte sequence that is entirely ASCII read back as characters.
pub open spec fn ascii_chars(bs: Seq<u8>) -> Seq<char> {
    Seq::new(bs.len(), |i: int| bs[i] as char)
}

/// The percent-encoded path segment for a tag: its UTF-8 bytes encoded and
/// read back as characters.
pub open spec fn encoded_segment(tag: Seq<char>) -> Seq<char> {
    ascii_chars(encoded_bytes(encode_utf8(tag)))
}

/// Whether a tag can be appended as one path segment at all. A segment of
/// one or two dots names the current or parent directory in a URL path and
/// cannot stand as a segment of its own, and the ASCII tab, line-feed and
/// carriage-return characters are deleted rather than escaped by URL
/// serializers; such tags are rejected.
pub open spec fn pushable_tag_bytes(bs: Seq<u8>) -> bool {
    bs != seq![0x2eu8] && bs != seq![0x2eu8, 0x2eu8] && forall|i: int|
        0 <= i < bs.len() ==> (bs[i] != 0x09 && bs[i] != 0x0a && bs[i] != 0x0d)
}

/// The normalized serialization that URL parsing gives the string, if it
/// parses. Full URL parsing has no short statement, so the result is only
/// named; it depends on the string alone.
pub uninterp spec fn parsed_url(s: Seq<char>) -> Option<Seq<char>>;

/// Relies on `url::Url::parse` and the serialization `url::Url::as_str`
/// returns: whether a string parses as a URL, and the normalized
/// serialization if it does, depend on the string alone.
#[verifier::external_body]
fn parse_url(s: &str) -> (r: Option<String>)
    ensures
        match r {
            Some(u) => parsed_url(s@) == Some(u@),
            None => parsed_url(s@) is None,
        },
{
    match url::Url::parse(s) {
        Ok(u) => Some(u.as_str().to_owned()),
        Err(_) => None,
    }
}

/// The base string for the tag-addressed endpoint, before URL normalization.
pub open spec fn tag_base(repo: Seq<char>) -> Seq<char> {
    "https://api.github.com/repos/"@ + repo + "/releases/tags"@
}

/// The releases-listing URL for a repository.
pub open spec fn release_list_url(repo: Seq<char>) -> Seq<char> {
    "https://api.github.com/repos/"@ + repo + "/releases"@
}

/// Where the path of a serialized URL ends: the index of its first `?` or
/// `#` byte, which start the query or the fragment, or the whole length
/// where there is neither.
pub open spec fn path_end_bytes(bs: Seq<u8>) -> int
    decreases bs.len(),
{
    if bs.len() == 0 {
        0
    } else if bs[0] == 0x3f || bs[0] == 0x23 {
        0
    } else {
        1 + path_end_bytes(bs.drop_first())
    }
}

/// A serialized URL with one more path segment: `/` and the segment's bytes
/// inserted at the end of the path, before any query or fragment. The
/// separating `/` is left out where the path already ends with one, as when
/// it is the root path alone.
pub open spec fn with_tag_bytes(base: Seq<u8>, seg: Seq<u8>) -> Seq<u8> {
    let k = path_end_bytes(base);
    if k > 0 && base[k - 1] == 0x2f {
        base.take(k) + seg + base.skip(k)
    } else {
        base.take(k) + seq![0x2fu8] + seg + base.skip(k)
    }
}

/// What the tag-addressed URL builder yields, as the UTF-8 bytes of the
/// resulting URL: `None` where the base does not parse or where the tag
/// cannot stand as one path segment; otherwise the normalized base with the
/// percent-encoded tag spliced in as the last path segment.
pub open spec fn tagged_url_spec(repo: Seq<char>, tag: Seq<char>) -> Option<Seq<u8>> {
    if pushable_tag_bytes(encode_utf8(tag)) {
        match parsed_url(tag_base(repo)) {
            Some(base) => Some(with_tag_bytes(encode_utf8(base), encoded_bytes(encode_utf8(tag)))),
            None => None,
        }
    } else {
        None
    }
}

/// The URL builder is deterministic: its outcome is a function of the
/// repository identifier and the tag alone, so two runs on identical inputs
/// yield identical URLs.
pub proof fn lemma_url_builder_deterministic(
    repo1: Seq<char>,
    tag1: Seq<char>,
    repo2: Seq<char>,
    tag2: Seq<char>,
)
    requires
        repo1 == repo2,
        tag1 == tag2,
    ensures
        tagged_url_spec(repo1, tag1) == tagged_url_spec(repo2, tag2),
{
}

/// An all-ASCII byte sequence is valid UTF-8 and decodes to itself, byte for
/// byte, as characters.
proof fn lemma_ascii_bytes_decode(bs: Seq<u8>)
    requires
        forall|i: int| 0 <= i < bs.len() ==> bs[i] < 0x80,
    ensures
        valid_utf8(bs),
        decode_utf8(bs) == ascii_chars(bs),
{
    let cs = ascii_chars(bs);
    assert(is_ascii_chars(cs));
    is_ascii_chars_encode_utf8(cs);
    assert(encode_utf8(cs) =~= bs);
    encode_utf8_valid_utf8(cs);
    encode_utf8_decode_utf8(cs);
}

/// Every byte the encoder emits is ASCII.
proof fn lemma_encoded_bytes_ascii(bs: Seq<u8>)
    ensures
        forall|i: int|
            0 <= i < encoded_bytes(bs).len() ==> #[trigger] encoded_bytes(bs)[i] < 0x80,
    decreases bs.len(),
{
    if bs.len() > 0 {
        lemma_encoded_bytes_ascii(bs.drop_last());
        let front = encoded_bytes(bs.drop_last());
        let tail = encoded_byte(bs.last());
        assert(forall|i: int| 0 <= i < tail.len() ==> tail[i] < 0x80);
        assert(encoded_bytes(bs) == front + tail);
        assert(forall|i: int|
            0 <= i < encoded_bytes(bs).len() ==> #[trigger] encoded_bytes(bs)[i] == if i
                < front.len() {
                front[i]
            } else {
                tail[i - front.len()]
            });
    }
}

/// `path_end_bytes` is the index of the first query or fragment starter.
proof fn lemma_path_end_bytes_at(bs: Seq<u8>, k: int)
    requires
        0 <= k <= bs.len(),
        forall|j: int| 0 <= j < k ==> (bs[j] != 0x3f && bs[j] != 0x23),
        k < bs.len() ==> (bs[k] == 0x3f || bs[k] == 0x23),
    ensures
        path_end_bytes(bs) == k,
    decreases bs.len(),
{
    if k > 0 {
        lemma_path_end_bytes_at(bs.drop_first(), k - 1);
    }
}

fn hex_digit_exec(n: u8) -> (r: u8)
    requires
        n < 16,
    ensures
        r == hex_digit(n),
{
    if n < 10 {
        0x30 + n
    } else {
        0x37 + n
    }
}

/// Percent-encodes the UTF-8 bytes of a tag into one path segment.
fn encode_segment_bytes(tag: &str) -> (r: Vec<u8>)
    ensures
        r@ == encoded_bytes(encode_utf8(tag@)),
{
    let bytes = tag.as_bytes();
    let ghost all: Seq<u8> = bytes@;
    let mut out: Vec<u8> = Vec::new();
    let mut i: usize = 0;
    while i < bytes.len()
        invariant
            i <= all.len(),
            bytes@ == all,
            out@ == encoded_bytes(all.take(i as int)),
        decreases all.len() - i,
    {
        let b = bytes[i];
        if 0x21 <= b && b <= 0x7e && b != 0x22 && b != 0x23 && b != 0x25 && b != 0x2f && b != 0x3c
            && b != 0x3e && b != 0x3f && b != 0x5c && b != 0x60 && b != 0x7b && b != 0x7d {
            out.push(b);
        } else {
            out.push(0x25);
            out.push(hex_digit_exec(b / 16));
            out.push(hex_digit_exec(b % 16));
        }
        proof {
            assert(all.take(i + 1).drop_last() =~= all.take(i as int));
            assert(all.take(i + 1).last() == all[i as int]);
        }
        i += 1;
    }
    proof {
        assert(all.take(all.len() as int) =~= all);
    }
    out
}

/// Whether the tag can stand as one appended path segment.
fn tag_pushable(tag: &str) -> (r: bool)
    ensures
        r == pushable_tag_bytes(encode_utf8(tag@)),
{
    let bytes = tag.as_bytes();
    let ghost all: Seq<u8> = bytes@;
    if bytes.len() == 1 && bytes[0] == 0x2e {
        proof {
            assert(all =~= seq![0x2eu8]);
        }
        return false;
    }
    if bytes.len() == 2 && bytes[0] == 0x2e && bytes[1] == 0x2e {
        proof {
            assert(all =~= seq![0x2eu8, 0x2eu8]);
        }
        return false;
    }
    let mut i: usize = 0;
    while i < bytes.len()
        invariant
            i <= all.len(),
            bytes@ == all,
            all == encode_utf8(tag@),
            forall|j: int| 0 <= j < i ==> (all[j] != 0x09 && all[j] != 0x0a && all[j] != 0x0d),
        decreases all.len() - i,
    {
        let b = bytes[i];
        if b == 0x09 || b == 0x0a || b == 0x0d {
            proof {
                assert(all == encode_utf8(tag@));
                assert((i as int) < encode_utf8(tag@).len());
                assert(!(encode_utf8(tag@)[i as int] != 0x09 && encode_utf8(tag@)[i as int]
                    != 0x0a && encode_utf8(tag@)[i as int] != 0x0d));
                assert(!pushable_tag_bytes(encode_utf8(tag@)));
            }
            return false;
        }
        i += 1;
    }
    true
}

/// Splices an ASCII path segment into a serialized URL, as `with_tag_bytes`
/// describes: `/` and the segment go at the end of the path, before any
/// query or fragment.
fn splice_segment(base: &str, seg: &Vec<u8>) -> (r: Vec<u8>)
    requires
        forall|i: int| 0 <= i < seg@.len() ==> seg@[i] < 0x80,
    ensures
        r@ == with_tag_bytes(encode_utf8(base@), seg@),
        valid_utf8(r@),
{
    let bytes = base.as_bytes();
    let ghost all: Seq<u8> = bytes@;
    let mut k: usize = 0;
    let mut found = false;
    while !found && k < bytes.len()
        invariant
            k <= all.len(),
            bytes@ == all,
            forall|j: int| 0 <= j < k ==> (all[j] != 0x3f && all[j] != 0x23),
            found ==> k < all.len() && (all[k as int] == 0x3f || all[k as int] == 0x23),
        decreases all.len() - k + (if found {
            0int
        } else {
            1int
        }),
    {
        let b = bytes[k];
        if b == 0x3f || b == 0x23 {
            found = true;
        } else {
            k += 1;
        }
    }
    proof {
        lemma_path_end_bytes_at(all, k as int);
    }
    let mut out: Vec<u8> = Vec::new();
    let mut i: usize = 0;
    while i < k
        invariant
            i <= k,
            k <= all.len(),
            bytes@ == all,
            out@ == all.take(i as int),
        decreases k - i,
    {
        out.push(bytes[i]);
        proof {
            assert(all.take(i + 1) =~= all.take(i as int).push(all[i as int]));
        }
        i += 1;
    }
    if !(k > 0 && bytes[k - 1] == 0x2f) {
        out.push(0x2f);
    }
    let ghost mid_start: Seq<u8> = out@;
    let mut j: usize = 0;
    while j < seg.len()
        invariant
            j <= seg@.len(),
            out@ == mid_start + seg@.take(j as int),
        decreases seg@.len() - j,
    {
        out.push(seg[j]);
        proof {
            assert(seg@.take(j + 1) =~= seg@.take(j as int).push(seg@[j as int]));
            assert(mid_start + seg@.take(j + 1) =~= (mid_start + seg@.take(j as int)).push(
                seg@[j as int],
            ));
        }
        j += 1;
    }
    proof {
        assert(seg@.take(seg@.len() as int) =~= seg@);
    }
    let ghost with_seg: Seq<u8> = out@;
    let mut m: usize = k;
    while m < bytes.len()
        invariant
            k <= m <= all.len(),
            bytes@ == all,
            out@ == with_seg + all.subrange(k as int, m as int),
        decreases all.len() - m,
    {
        out.push(bytes[m]);
        proof {
            assert(all.subrange(k as int, m + 1) =~= all.subrange(k as int, m as int).push(
                all[m as int],
            ));
            assert(with_seg + all.subrange(k as int, m + 1) =~= (with_seg + all.subrange(
                k as int,
                m as int,
            )).push(all[m as int]));
        }
        m += 1;
    }
    proof {
        let ub = encode_utf8(base@);
        assert(all == ub);
        assert(path_end_bytes(ub) == k as int);
        assert(out@ =~= with_tag_bytes(ub, seg@));
        encode_utf8_valid_utf8(base@);
        if (k as int) < ub.len() {
            is_char_boundary_iff_not_is_continuation_byte(ub, k as int);
        } else {
            is_char_boundary_start_end_of_seq(ub);
        }
        valid_utf8_split(ub, k as int);
        let head = ub.subrange(0, k as int);
        let tail = ub.subrange(k as int, ub.len() as int);
        assert(head =~= ub.take(k as int));
        assert(tail =~= ub.skip(k as int));
        let mid: Seq<u8> = if k > 0 && ub[k - 1] == 0x2f {
            seg@
        } else {
            seq![0x2fu8] + seg@
        };
        assert(forall|i: int| 0 <= i < mid.len() ==> mid[i] < 0x80);
        lemma_ascii_bytes_decode(mid);
        valid_utf8_concat(head, mid);
        valid_utf8_concat(head + mid, tail);
        assert(out@ =~= (head + mid) + tail);
    }
    out
}

/// Builds the releases-listing URL for a repository, by plain concatenation
/// as the listing endpoint takes the identifier as it stands.
pub fn build_release_list_url(repo_name_with_owner: &str) -> (r: String)
    ensures
        r@ == release_list_url(repo_name_with_owner@),
{
    let mut s = String::from_str("https://api.github.com/repos/");
    s.append(repo_name_with_owner);
    s.append("/releases");
    s
}

/// Builds the URL that addresses one release by its exact tag: the parsed
/// base for the repository, with the tag spliced in percent-encoded as the
/// last path segment, before any query or fragment the base may carry. A
/// `/` inside the tag is escaped as `%2F`, and characters already valid in
/// a path segment are never double-encoded. Fails with `InvalidUrl` when
/// the base template does not parse as a URL, or when the tag cannot stand
/// as one path segment.
pub fn build_tagged_release_url(repo_name_with_owner: &str, tag: &str) -> (r: Result<
    String,
    GithubError,
>)
    ensures
        match r {
            Ok(u) => tagged_url_spec(repo_name_with_owner@, tag@) == Some(encode_utf8(u@)),
            Err(e) => e is InvalidUrl && tagged_url_spec(repo_name_with_owner@, tag@) is None,
        },
{
    if !tag_pushable(tag) {
        return Err(GithubError::InvalidUrl);
    }
    let mut base = String::from_str("https://api.github.com/repos/");
    base.append(repo_name_with_owner);
    base.append("/releases/tags");
    match parse_url(base.as_str()) {
        None => Err(GithubError::InvalidUrl),
        Some(u) => {
            let enc = encode_segment_bytes(tag);
            proof {
                lemma_encoded_bytes_ascii(encode_utf8(tag@));
            }
            let out = splice_segment(u.as_str(), &enc);
            proof {
                decode_utf8_encode_utf8(out@);
            }
            let spliced = lossy_string(&out);
            Ok(spliced)
        },
    }
}

} // verus!

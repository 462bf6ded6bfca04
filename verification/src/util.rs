//! Utility functions for building responses and reading requests.

use crate::text::{decimal, extend_chars, from_chars, push_decimal, replaced, substitute, to_chars};
use vstd::prelude::*;

verus! {

/// The port to start scanning from if no port was given.
pub const PORT_SCAN_LOWEST: u16 = 8000;

/// The port to end scanning at if no port was given.
pub const PORT_SCAN_HIGHEST: u16 = 9999;

/// How many bytes of content are looked at in one step.
pub const SNIFF_CHUNK: usize = 1024;

/// The views of the strings of a sequence, in order.
pub open spec fn views(v: Seq<String>) -> Seq<Seq<char>> {
    Seq::new(v.len(), |i: int| v[i]@)
}

/// The uppercase form of a character as Unicode defines it: one character
/// or several. Nothing more is known of it here.
pub uninterp spec fn uppercase_of(c: char) -> Seq<char>;

/// The uppercase form of `c`.
///
/// Trusted: calls `char::to_uppercase` and collects what it yields. The
/// contract only gives that result its name.
#[verifier::external_body]
fn to_upper(c: char) -> (v: Vec<char>)
    ensures
        v@ == uppercase_of(c),
{
    c.to_uppercase().collect()
}

/// `s` with its first character replaced by `head`; the empty sequence
/// stays empty.
pub open spec fn with_head(head: Seq<char>, s: Seq<char>) -> Seq<char> {
    if s.len() == 0 {
        s
    } else {
        head + s.skip(1)
    }
}

/// Puts `head` in the place of the first character of `s`.
pub fn replace_first(s: &[char], head: &[char]) -> (out: String)
    ensures
        out@ == with_head(head@, s@),
{
    if s.len() == 0 {
        return String::new();
    }
    let mut v: Vec<char> = Vec::new();
    extend_chars(&mut v, head);
    let mut i: usize = 1;
    assert(s@.subrange(1, 1) =~= Seq::<char>::empty());
    while i < s.len()
        invariant
            1 <= i <= s.len(),
            v@ == head@ + s@.subrange(1, i as int),
        decreases s.len() - i,
    {
        v.push(s[i]);
        i += 1;
        assert(v@ =~= head@ + s@.subrange(1, i as int));
    }
    assert(s@.subrange(1, i as int) =~= s@.skip(1));
    from_chars(v.as_slice())
}

/// Uppercase the first character of the supplied string.
pub fn uppercase_first(s: &str) -> (out: String)
    ensures
        out@ == if s@.len() == 0 {
            Seq::<char>::empty()
        } else {
            uppercase_of(s@[0]) + s@.skip(1)
        },
{
    let chars = to_chars(s);
    if chars.len() == 0 {
        return String::new();
    }
    let head = to_upper(chars[0]);
    replace_first(chars.as_slice(), head.as_slice())
}

/// What a piece of content is taken to be.
#[derive(Debug, Clone, Copy, PartialEq, Eq, Structural)]
pub enum ContentClassification {
    Binary,
    Text,
}

/// Whether `byte` occurs in `buf`.
pub fn contains_byte(buf: &[u8], byte: u8) -> (found: bool)
    ensures
        found == buf@.contains(byte),
{
    let mut i: usize = 0;
    while i < buf.len()
        invariant
            i <= buf.len(),
            forall|j: int| 0 <= j < i ==> buf@[j] != byte,
        decreases buf.len() - i,
    {
        if buf[i] == byte {
            return true;
        }
        i += 1;
    }
    false
}

/// Content with a zero byte in it is binary; any other, the empty one too,
/// is text.
pub fn classify(content: &[u8]) -> (class: ContentClassification)
    ensures
        class == if content@.contains(0u8) {
            ContentClassification::Binary
        } else {
            ContentClassification::Text
        },
{
    if contains_byte(content, 0) {
        ContentClassification::Binary
    } else {
        ContentClassification::Text
    }
}

/// What to do after one read from a stream.
#[derive(Debug, Clone, Copy, PartialEq, Eq, Structural)]
pub enum ChunkVerdict {
    /// The byte is among the bytes that the read gave.
    Found,
    /// The read gave no bytes: the stream has ended.
    Exhausted,
    /// The read gave bytes without the byte among them: read on.
    Continue,
}

/// The verdict on one read that gave the bytes `filled`. Only a read of no
/// bytes ends the stream; one that fills less than the buffer does not.
pub open spec fn chunk_verdict(filled: Seq<u8>, byte: u8) -> ChunkVerdict {
    if filled.contains(byte) {
        ChunkVerdict::Found
    } else if filled.len() == 0 {
        ChunkVerdict::Exhausted
    } else {
        ChunkVerdict::Continue
    }
}

/// Judges one read from a stream: `buf` is the buffer that was read into
/// and `read` the number of bytes that the read filled.
pub fn scan_chunk(buf: &[u8], read: usize, byte: u8) -> (verdict: ChunkVerdict)
    requires
        read <= buf@.len(),
    ensures
        verdict == chunk_verdict(buf@.take(read as int), byte),
{
    let mut i: usize = 0;
    while i < read
        invariant
            i <= read <= buf@.len(),
            forall|j: int| 0 <= j < i ==> buf@[j] != byte,
        decreases read - i,
    {
        if buf[i] == byte {
            assert(buf@.take(read as int)[i as int] == byte);
            return ChunkVerdict::Found;
        }
        i += 1;
    }
    if read == 0 {
        ChunkVerdict::Exhausted
    } else {
        ChunkVerdict::Continue
    }
}

/// Whether `byte` is found when a stream gives `reads`, one after the
/// other, and each is judged by `chunk_verdict`. After the last of them the
/// stream has ended.
pub open spec fn stream_scan(reads: Seq<Seq<u8>>, byte: u8) -> bool
    decreases reads.len(),
{
    if reads.len() == 0 {
        false
    } else {
        match chunk_verdict(reads[0], byte) {
            ChunkVerdict::Found => true,
            ChunkVerdict::Exhausted => false,
            ChunkVerdict::Continue => stream_scan(reads.skip(1), byte),
        }
    }
}

/// All the bytes of a sequence of reads, in order.
pub open spec fn content_of(reads: Seq<Seq<u8>>) -> Seq<u8>
    decreases reads.len(),
{
    if reads.len() == 0 {
        Seq::empty()
    } else {
        reads[0] + content_of(reads.skip(1))
    }
}

/// Scanning a stream read by read finds a byte exactly if the content of
/// the stream holds it, however the content is cut into reads, as long as
/// every read before the end gives at least one byte.
pub proof fn lemma_stream_scan_is_contains(reads: Seq<Seq<u8>>, byte: u8)
    requires
        forall|i: int| 0 <= i < reads.len() ==> (#[trigger] reads[i]).len() > 0,
    ensures
        stream_scan(reads, byte) == content_of(reads).contains(byte),
    decreases reads.len(),
{
    if reads.len() > 0 {
        let head = reads[0];
        let tail = reads.skip(1);
        let rest = content_of(tail);
        let all = content_of(reads);
        assert forall|i: int| 0 <= i < tail.len() implies (#[trigger] tail[i]).len() > 0 by {
            assert(tail[i] == reads[i + 1]);
        }
        lemma_stream_scan_is_contains(tail, byte);
        if head.contains(byte) {
            let i = choose|i: int| 0 <= i < head.len() && head[i] == byte;
            assert(all[i] == byte);
        } else if rest.contains(byte) {
            let i = choose|i: int| 0 <= i < rest.len() && rest[i] == byte;
            assert(all[i + head.len()] == byte);
        } else if all.contains(byte) {
            let i = choose|i: int| 0 <= i < all.len() && all[i] == byte;
            if i < head.len() {
                assert(head[i] == byte);
            } else {
                assert(rest[i - head.len()] == byte);
            }
        }
    }
}

/// The views of the reads of a sequence, in order.
pub open spec fn read_views(reads: Seq<Vec<u8>>) -> Seq<Seq<u8>> {
    Seq::new(reads.len(), |i: int| reads[i]@)
}

/// Check if the reads of a file contain the specified byte: the reads are
/// judged in order until one holds the byte or gave nothing.
pub fn file_contains(reads: &Vec<Vec<u8>>, byte: u8) -> (found: bool)
    ensures
        found == stream_scan(read_views(reads@), byte),
{
    let mut i: usize = 0;
    assert(read_views(reads@).skip(0) =~= read_views(reads@));
    while i < reads.len()
        invariant
            i <= reads@.len(),
            stream_scan(read_views(reads@).skip(i as int), byte) == stream_scan(
                read_views(reads@),
                byte,
            ),
        decreases reads@.len() - i,
    {
        let ghost rest = read_views(reads@).skip(i as int);
        let chunk = reads[i].as_slice();
        assert(rest[0] == chunk@);
        assert(chunk@.take(chunk@.len() as int) =~= chunk@);
        assert(rest.skip(1) =~= read_views(reads@).skip(i + 1));
        match scan_chunk(chunk, chunk.len(), byte) {
            ChunkVerdict::Found => {
                return true;
            },
            ChunkVerdict::Exhausted => {
                return false;
            },
            ChunkVerdict::Continue => {},
        }
        i += 1;
    }
    false
}

/// The text that stands for the value of the given index in a template.
pub open spec fn placeholder(i: nat) -> Seq<char> {
    seq!['{'] + decimal(i) + seq!['}']
}

/// The template `data` after the placeholders of the first `n` values were
/// replaced, one index after the other.
pub open spec fn rendered(data: Seq<char>, values: Seq<Seq<char>>, n: nat) -> Seq<char>
    decreases n,
{
    if n == 0 {
        data
    } else {
        replaced(
            rendered(data, values, (n - 1) as nat),
            placeholder((n - 1) as nat),
            values[n - 1],
        )
    }
}

/// Whether `pat` stands somewhere in `s`.
pub open spec fn occurs_in(s: Seq<char>, pat: Seq<char>) -> bool {
    exists|i: int|
        0 <= i && i + pat.len() <= s.len() && #[trigger] s.subrange(i, i + pat.len()) == pat
}

/// Whether every placeholder in `data` has an index below `n`.
pub open spec fn addresses_below(data: Seq<char>, n: nat) -> bool {
    forall|k: nat| k >= n ==> !occurs_in(data, #[trigger] placeholder(k))
}

/// Fill out an HTML template.
///
/// Every `{i}` in `data` is replaced by the value of index `i`, for each
/// index in turn. Nothing is escaped. It is for the caller to supply a
/// value for every index that the template addresses.
pub fn html_response(data: &str, format_strings: Vec<String>) -> (page: String)
    requires
        addresses_below(data@, format_strings@.len()),
    ensures
        page@ == rendered(data@, views(format_strings@), format_strings@.len()),
{
    let mut d = to_chars(data);
    let mut i: usize = 0;
    while i < format_strings.len()
        invariant
            i <= format_strings@.len(),
            d@ == rendered(data@, views(format_strings@), i as nat),
        decreases format_strings@.len() - i,
    {
        let mut pat: Vec<char> = Vec::new();
        pat.push('{');
        push_decimal(&mut pat, i);
        pat.push('}');
        assert(pat@ =~= placeholder(i as nat));
        let to = to_chars(format_strings[i].as_str());
        d = substitute(d.as_slice(), pat.as_slice(), to.as_slice());
        i += 1;
    }
    from_chars(d.as_slice())
}

/// The segments in order, with one separator between each two.
pub open spec fn joined(segments: Seq<Seq<char>>) -> Seq<char>
    decreases segments.len(),
{
    if segments.len() == 0 {
        Seq::empty()
    } else if segments.len() == 1 {
        segments[0]
    } else {
        joined(segments.drop_last()) + seq!['/'] + segments.last()
    }
}

/// Joining puts nothing in front of the first segment: the joined path
/// begins with it.
pub proof fn lemma_joined_begins_with_first(segments: Seq<Seq<char>>)
    requires
        segments.len() > 0,
    ensures
        segments[0].len() <= joined(segments).len(),
        joined(segments).take(segments[0].len() as int) == segments[0],
    decreases segments.len(),
{
    if segments.len() == 1 {
        assert(joined(segments).take(segments[0].len() as int) =~= segments[0]);
    } else {
        lemma_joined_begins_with_first(segments.drop_last());
        assert(joined(segments).take(segments[0].len() as int) =~= joined(
            segments.drop_last(),
        ).take(segments[0].len() as int));
    }
}

/// How many separators stand at the front of `s`.
pub open spec fn leading_separators(s: Seq<char>) -> nat
    decreases s.len(),
{
    if s.len() > 0 && s[0] == '/' {
        1 + leading_separators(s.skip(1))
    } else {
        0
    }
}

/// The relative path that segments stand for: the segments joined, without
/// the separators that the join would begin with.
pub open spec fn relative_path_of(segments: Seq<Seq<char>>) -> Seq<char> {
    joined(segments).skip(leading_separators(joined(segments)) as int)
}

/// The separators at the front of `s` are the `k` characters before the
/// first that is none.
pub proof fn lemma_leading_separators(s: Seq<char>, k: int)
    requires
        0 <= k <= s.len(),
        forall|j: int| 0 <= j < k ==> s[j] == '/',
        k == s.len() || s[k] != '/',
    ensures
        leading_separators(s) == k,
    decreases k,
{
    if k > 0 {
        lemma_leading_separators(s.skip(1), k - 1);
    }
}

/// After the separators at the front of `s` comes the end or a character
/// that is none.
pub proof fn lemma_leading_separators_end(s: Seq<char>)
    ensures
        leading_separators(s) <= s.len(),
        leading_separators(s) == s.len() || s[leading_separators(s) as int] != '/',
    decreases s.len(),
{
    if s.len() > 0 && s[0] == '/' {
        lemma_leading_separators_end(s.skip(1));
    }
}

/// No relative path begins with a separator, whatever the segments are.
pub proof fn lemma_relative_path_has_no_leading_separator(segments: Seq<Seq<char>>)
    ensures
        relative_path_of(segments).len() == 0 || relative_path_of(segments)[0] != '/',
{
    lemma_leading_separators_end(joined(segments));
}

/// Where the first segment begins with a character that is no separator,
/// the relative path is the plain join.
pub proof fn lemma_relative_path_is_joined(segments: Seq<Seq<char>>)
    requires
        segments.len() > 0,
        segments[0].len() > 0,
        segments[0][0] != '/',
    ensures
        relative_path_of(segments) == joined(segments),
{
    lemma_joined_begins_with_first(segments);
    assert(joined(segments).take(segments[0].len() as int)[0] == segments[0][0]);
    assert(joined(segments).skip(0) =~= joined(segments));
}

/// Joining keeps the order of the segments and what they hold: the path of
/// two runs of segments, one after the other, is the path of the first, a
/// separator, and the path of the second.
pub proof fn lemma_joined_concat(front: Seq<Seq<char>>, back: Seq<Seq<char>>)
    requires
        front.len() > 0,
        back.len() > 0,
    ensures
        joined(front + back) == joined(front) + seq!['/'] + joined(back),
    decreases back.len(),
{
    let all = front + back;
    assert(all.last() == back.last());
    if back.len() == 1 {
        assert(all.drop_last() =~= front);
    } else {
        assert(all.drop_last() =~= front + back.drop_last());
        lemma_joined_concat(front, back.drop_last());
        assert(joined(all) =~= joined(front) + seq!['/'] + joined(back));
    }
}

/// Whether no segment holds a separator.
pub open spec fn separator_free(segments: Seq<Seq<char>>) -> bool {
    forall|i: int, j: int|
        0 <= i < segments.len() && 0 <= j < segments[i].len() ==> #[trigger] segments[i][j] != '/'
}

/// Segments that hold no separator can be read back from the joined path:
/// two sequences of such segments with the same joined path are the same.
pub proof fn lemma_joined_is_injective(a: Seq<Seq<char>>, b: Seq<Seq<char>>)
    requires
        a.len() > 0,
        b.len() > 0,
        separator_free(a),
        separator_free(b),
        joined(a) == joined(b),
    ensures
        a == b,
    decreases a.len(),
{
    let path = joined(a);
    if a.len() == 1 && b.len() == 1 {
        assert(a =~= b);
    } else if a.len() == 1 {
        let k = joined(b.drop_last()).len() as int;
        assert(joined(b)[k] == '/');
        assert(a[0][k] == '/');
    } else if b.len() == 1 {
        let k = joined(a.drop_last()).len() as int;
        assert(joined(a)[k] == '/');
        assert(b[0][k] == '/');
    } else {
        let x = joined(a.drop_last());
        let y = joined(b.drop_last());
        let la = a.last();
        let lb = b.last();
        assert(path == x + seq!['/'] + la);
        assert(path == y + seq!['/'] + lb);
        if x.len() < y.len() {
            assert(path[y.len() as int] == '/');
            assert(la[y.len() - x.len() - 1] == path[y.len() as int]);
            assert(a[a.len() - 1][y.len() - x.len() - 1] == '/');
        } else if y.len() < x.len() {
            assert(path[x.len() as int] == '/');
            assert(lb[x.len() - y.len() - 1] == path[x.len() as int]);
            assert(b[b.len() - 1][x.len() - y.len() - 1] == '/');
        } else {
            assert(x =~= path.take(x.len() as int));
            assert(y =~= path.take(x.len() as int));
            assert(la =~= path.skip(x.len() as int + 1));
            assert(lb =~= path.skip(x.len() as int + 1));
            assert forall|i: int, j: int|
                0 <= i < a.drop_last().len() && 0 <= j < a.drop_last()[i].len() implies #[trigger] a.drop_last()[i][j]
                != '/' by {
                assert(a[i][j] != '/');
            }
            assert forall|i: int, j: int|
                0 <= i < b.drop_last().len() && 0 <= j < b.drop_last()[i].len() implies #[trigger] b.drop_last()[i][j]
                != '/' by {
                assert(b[i][j] != '/');
            }
            lemma_joined_is_injective(a.drop_last(), b.drop_last());
            assert(a =~= a.drop_last().push(la));
            assert(b =~= b.drop_last().push(lb));
        }
    }
}

/// Segments that hold no separator, the first of them not empty, can be
/// read back from the relative path: two such sequences with the same
/// relative path are the same.
pub proof fn lemma_relative_path_is_injective(a: Seq<Seq<char>>, b: Seq<Seq<char>>)
    requires
        a.len() > 0,
        b.len() > 0,
        a[0].len() > 0,
        b[0].len() > 0,
        separator_free(a),
        separator_free(b),
        relative_path_of(a) == relative_path_of(b),
    ensures
        a == b,
{
    assert(a[0][0] != '/');
    assert(b[0][0] != '/');
    lemma_relative_path_is_joined(a);
    lemma_relative_path_is_joined(b);
    lemma_joined_is_injective(a, b);
}

/// Joins path segments into a relative path: the segments in order, one
/// separator between each two, and no separator in front.
pub fn join_segments(segments: &Vec<String>) -> (path: String)
    ensures
        path@ == relative_path_of(views(segments@)),
        path@.len() == 0 || path@[0] != '/',
{
    let mut out: Vec<char> = Vec::new();
    let mut i: usize = 0;
    while i < segments.len()
        invariant
            i <= segments@.len(),
            out@ == joined(views(segments@).take(i as int)),
        decreases segments@.len() - i,
    {
        let ghost before = views(segments@).take(i as int);
        let ghost after = views(segments@).take(i + 1);
        if i > 0 {
            out.push('/');
        }
        let seg = to_chars(segments[i].as_str());
        extend_chars(&mut out, seg.as_slice());
        proof {
            assert(after.drop_last() =~= before);
            assert(after.last() == seg@);
        }
        i += 1;
    }
    assert(views(segments@).take(i as int) =~= views(segments@));
    let mut k: usize = 0;
    while k < out.len() && out[k] == '/'
        invariant
            k <= out@.len(),
            forall|j: int| 0 <= j < k ==> out@[j] == '/',
        decreases out@.len() - k,
    {
        k += 1;
    }
    proof {
        lemma_leading_separators(out@, k as int);
        lemma_relative_path_has_no_leading_separator(views(segments@));
    }
    let mut rest: Vec<char> = Vec::new();
    let mut j: usize = k;
    assert(out@.subrange(k as int, k as int) =~= Seq::<char>::empty());
    while j < out.len()
        invariant
            k <= j <= out@.len(),
            rest@ == out@.subrange(k as int, j as int),
        decreases out@.len() - j,
    {
        rest.push(out[j]);
        j += 1;
        assert(rest@ =~= out@.subrange(k as int, j as int));
    }
    assert(out@.subrange(k as int, j as int) =~= out@.skip(k as int));
    from_chars(rest.as_slice())
}

/// Whether a URL has a path that is made of segments. Every URL that
/// `iron::Url::parse` or `iron::Url::from_generic_url` gave has one.
pub uninterp spec fn has_segments(url: iron::Url) -> bool;

/// The path segments of a URL, in order, as the URL holds them.
pub uninterp spec fn path_segments(url: iron::Url) -> Seq<Seq<char>>;

#[verifier::external_type_specification]
#[verifier::external_body]
pub struct ExUrl(iron::Url);

/// Tells whether `url` has a path that is made of segments.
///
/// Trusted: asks `url::Url::path_segments` on the URL that `url` wraps
/// whether there are any. The contract only gives that answer its name.
#[verifier::external_body]
fn holds_segments(url: &iron::Url) -> (held: bool)
    ensures
        held == has_segments(*url),
{
    let inner: &iron::url::Url = url.as_ref();
    inner.path_segments().is_some()
}

/// The path segments of `url` as owned strings.
///
/// Trusted: calls `iron::Url::path`, which collects what
/// `url::Url::path_segments` yields and panics where there is nothing to
/// yield, and copies each segment into a `String`. The contract gives that
/// result its name and says what comes of splitting a path at its
/// separators: at least one segment, and no separator in any.
#[verifier::external_body]
fn segments_of(url: &iron::Url) -> (segments: Vec<String>)
    requires
        has_segments(*url),
    ensures
        views(segments@) == path_segments(*url),
        segments@.len() > 0,
        separator_free(views(segments@)),
{
    let mut v = Vec::new();
    for s in url.path() {
        v.push(s.to_string());
    }
    v
}

/// Return the path part of the URL.
pub fn url_path(url: &iron::Url) -> (path: String)
    requires
        has_segments(*url),
    ensures
        path@ == relative_path_of(path_segments(*url)),
        path@.len() == 0 || path@[0] != '/',
        path_segments(*url).len() > 0,
        separator_free(path_segments(*url)),
{
    let segments = segments_of(url);
    join_segments(&segments)
}

/// Return the path part of the URL, or `None` for a URL whose path is not
/// made of segments.
pub fn try_url_path(url: &iron::Url) -> (path: Option<String>)
    ensures
        match path {
            Some(p) => {
                &&& has_segments(*url)
                &&& p@ == relative_path_of(path_segments(*url))
                &&& (p@.len() == 0 || p@[0] != '/')
                &&& path_segments(*url).len() > 0
                &&& separator_free(path_segments(*url))
            },
            None => !has_segments(*url),
        },
{
    if holds_segments(url) {
        Some(url_path(url))
    } else {
        None
    }
}

} // verus!

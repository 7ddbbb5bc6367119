//! The ingress's request head: the request line's method and path, the
//! `Content-Length` header, and the limits on head and body size. Reading
//! the socket is the caller's part; it hands over the head line by line.
use vstd::prelude::*;
use vstd::utf8::encode_utf8;

use crate::cli::{at_most_of, colon_index, parse_at_most};
use crate::text::{blank, char_is_ws, is_blank, is_ws, lemma_trim_start_skip, owned, trim, trim_start, trimmed};

verus! {

/// Most bytes a request head may take.
pub const MAX_HEADER_BYTES: usize = 16384;

/// Largest body the ingress accepts.
pub const MAX_BODY_BYTES: u32 = 1048576;

/// Index of the first white space character in `s`, or its length.
pub open spec fn ws_index(s: Seq<char>) -> int
    decreases s.len(),
{
    if s.len() == 0 {
        0
    } else if is_ws(s[0]) {
        0
    } else {
        1 + ws_index(s.drop_first())
    }
}

proof fn lemma_ws_index(s: Seq<char>, i: int)
    requires
        0 <= i <= s.len(),
        forall|k: int| 0 <= k < i ==> !is_ws(#[trigger] s[k]),
    ensures
        ws_index(s) == i + ws_index(s.skip(i)),
    decreases i,
{
    if i == 0 {
        assert(s.skip(0) =~= s);
    } else {
        assert(!is_ws(s[0]));
        assert(s.drop_first().skip(i - 1) =~= s.skip(i));
        assert forall|k: int| 0 <= k < i - 1 implies !is_ws(#[trigger] s.drop_first()[k]) by {
            assert(s.drop_first()[k] == s[k + 1]);
        }
        lemma_ws_index(s.drop_first(), i - 1);
    }
}

/// The first white-space separated word of `s`, as `split_whitespace` gives it
/// (empty when there is none).
pub open spec fn first_word(s: Seq<char>) -> Seq<char> {
    let t = trim_start(s);
    t.take(ws_index(t))
}

/// What follows the first word of `s`.
pub open spec fn after_first_word(s: Seq<char>) -> Seq<char> {
    let t = trim_start(s);
    t.skip(ws_index(t))
}

/// Bounds of the first word of `s` from position `from`.
fn word_bounds(s: &str, from: usize) -> (r: (usize, usize))
    requires
        from <= s@.len(),
    ensures
        from <= r.0 <= r.1 <= s@.len(),
        first_word(s@.skip(from as int)) == s@.subrange(r.0 as int, r.1 as int),
        after_first_word(s@.skip(from as int)) == s@.skip(r.1 as int),
{
    let n = s.unicode_len();
    let mut i: usize = from;
    while i < n && char_is_ws(s.get_char(i))
        invariant
            n == s@.len(),
            from <= i <= n,
            forall|k: int| from <= k < i ==> is_ws(#[trigger] s@[k]),
        decreases n - i,
    {
        i = i + 1;
    }
    let mut j: usize = i;
    while j < n && !char_is_ws(s.get_char(j))
        invariant
            n == s@.len(),
            i <= j <= n,
            forall|k: int| i <= k < j ==> !is_ws(#[trigger] s@[k]),
        decreases n - j,
    {
        j = j + 1;
    }
    proof {
        let u = s@.skip(from as int);
        assert forall|k: int| 0 <= k < i - from implies is_ws(#[trigger] u[k]) by {
            assert(u[k] == s@[k + from]);
        }
        lemma_trim_start_skip(u, i - from);
        assert(u.skip(i - from) =~= s@.skip(i as int));
        let t = s@.skip(i as int);
        if i < n {
            assert(!is_ws(t[0]));
        }
        assert(trim_start(t) == t);
        assert forall|k: int| 0 <= k < j - i implies !is_ws(#[trigger] t[k]) by {
            assert(t[k] == s@[k + i]);
        }
        lemma_ws_index(t, j - i);
        if j < n {
            assert(t.skip(j - i)[0] == s@[j as int]);
            assert(is_ws(t.skip(j - i)[0]));
        } else {
            assert(t.skip(j - i).len() == 0);
        }
        assert(t.take(j - i) =~= s@.subrange(i as int, j as int));
        assert(t.skip(j - i) =~= s@.skip(j as int));
    }
    (i, j)
}

/// The method and the path of a request line: its first two words.
pub fn request_line(line: &str) -> (r: (String, String))
    ensures
        r.0@ == first_word(line@),
        r.1@ == first_word(after_first_word(line@)),
{
    let (a, b) = word_bounds(line, 0);
    let (c, d) = word_bounds(line, b);
    proof {
        assert(line@.skip(0) =~= line@);
    }
    (owned(line.substring_char(a, b)), owned(line.substring_char(c, d)))
}

/// `a` is `lower` with any of its letters in the case `upper` gives them.
pub open spec fn ascii_ci_eq(a: Seq<char>, lower: Seq<char>, upper: Seq<char>) -> bool {
    a.len() == lower.len() && forall|i: int|
        0 <= i < a.len() ==> (#[trigger] a[i] == lower[i] || a[i] == upper[i])
}

fn ci_eq(a: &str, lower: &str, upper: &str) -> (r: bool)
    requires
        lower@.len() == upper@.len(),
    ensures
        r == ascii_ci_eq(a@, lower@, upper@),
{
    let n = a.unicode_len();
    if n != lower.unicode_len() {
        return false;
    }
    let mut i: usize = 0;
    while i < n
        invariant
            n == a@.len(),
            n == lower@.len(),
            n == upper@.len(),
            0 <= i <= n,
            forall|k: int| 0 <= k < i ==> (#[trigger] a@[k] == lower@[k] || a@[k] == upper@[k]),
        decreases n - i,
    {
        let c = a.get_char(i);
        if c != lower.get_char(i) && c != upper.get_char(i) {
            return false;
        }
        i = i + 1;
    }
    true
}

/// For a `Content-Length` header line (name matched without regard to ASCII
/// case): its value, when it is a number up to the largest `u32`. A line
/// that is no such header gives `None`.
pub open spec fn content_length_of(line: Seq<char>) -> Option<Option<nat>> {
    let l = trimmed(line);
    let c = colon_index(l);
    if c < l.len() && ascii_ci_eq(trimmed(l.take(c)), "content-length"@, "CONTENT-LENGTH"@) {
        Some(at_most_of(trimmed(l.skip(c + 1)), u32::MAX as nat))
    } else {
        None
    }
}

pub fn content_length_header(line: &str) -> (r: Option<Option<u32>>)
    ensures
        match r {
            None => content_length_of(line@) is None,
            Some(None) => content_length_of(line@) == Some(None::<nat>),
            Some(Some(v)) => content_length_of(line@) == Some(Some(v as nat)),
        },
{
    let l = trim(line);
    let n = l.unicode_len();
    let c = crate::cli::find_colon(l.as_str());
    if c >= n {
        return None;
    }
    let name = trim(l.as_str().substring_char(0, c));
    proof {
        assert(l@.subrange(0, c as int) =~= l@.take(c as int));
    }
    proof {
        reveal_strlit("content-length");
        reveal_strlit("CONTENT-LENGTH");
    }
    if !ci_eq(name.as_str(), "content-length", "CONTENT-LENGTH") {
        return None;
    }
    let value = trim(l.as_str().substring_char(c + 1, n));
    proof {
        assert(l@.subrange(c + 1, n as int) =~= l@.skip(c + 1));
    }
    Some(parse_at_most(value.as_str(), u32::MAX))
}

/// What the reader of a request head does next.
pub enum HeadStep {
    /// Read another line.
    More,
    /// The head, or the body it announces, is too large: drop the request.
    TooLarge,
    /// The head is complete; the body has this many bytes.
    End { content_length: u32 },
}

/// A request head read so far.
pub struct HeadReader {
    /// Bytes of head read.
    pub bytes: usize,
    /// The method and path, once the request line has been read.
    pub request: Option<(String, String)>,
    /// The body length announced so far; one that does not parse counts as 0.
    pub content_length: u32,
}

pub open spec fn sat_add_usize(a: usize, b: nat) -> usize {
    if a + b > usize::MAX {
        usize::MAX
    } else {
        (a + b) as usize
    }
}

impl HeadReader {
    pub fn new() -> (r: HeadReader)
        ensures
            r.bytes == 0,
            r.request is None,
            r.content_length == 0,
    {
        HeadReader { bytes: 0, request: None, content_length: 0 }
    }

    /// Takes one line of the head (with its line ending). The first line is
    /// the request line; a blank line ends the head; a `Content-Length`
    /// header sets the body length. A head over `MAX_HEADER_BYTES`, or a
    /// body over `MAX_BODY_BYTES`, is too large.
    pub fn feed(&mut self, line: &str) -> (r: HeadStep)
        ensures
            final(self).bytes == sat_add_usize(old(self).bytes, encode_utf8(line@).len()),
            final(self).bytes > MAX_HEADER_BYTES ==> r is TooLarge,
            final(self).bytes <= MAX_HEADER_BYTES ==> {
                if old(self).request is None {
                    &&& r is More
                    &&& final(self).request matches Some(rl) && rl.0@ == first_word(line@) && rl.1@
                        == first_word(after_first_word(line@))
                    &&& final(self).content_length == old(self).content_length
                } else if is_blank(line@) {
                    &&& final(self).request == old(self).request
                    &&& final(self).content_length == old(self).content_length
                    &&& old(self).content_length > MAX_BODY_BYTES ==> r is TooLarge
                    &&& old(self).content_length <= MAX_BODY_BYTES ==> r == (HeadStep::End {
                        content_length: old(self).content_length,
                    })
                } else {
                    &&& r is More
                    &&& final(self).request == old(self).request
                    &&& final(self).content_length == match content_length_of(line@) {
                        None => old(self).content_length,
                        Some(None) => 0,
                        Some(Some(v)) => v as u32,
                    }
                }
            },
    {
        let len = line.as_bytes().len();
        self.bytes = self.bytes.saturating_add(len);
        if self.bytes > MAX_HEADER_BYTES {
            return HeadStep::TooLarge;
        }
        if self.request.is_none() {
            self.request = Some(request_line(line));
            return HeadStep::More;
        }
        if blank(line) {
            if self.content_length > MAX_BODY_BYTES {
                return HeadStep::TooLarge;
            }
            return HeadStep::End { content_length: self.content_length };
        }
        match content_length_header(line) {
            Some(Some(v)) => {
                self.content_length = v;
            },
            Some(None) => {
                self.content_length = 0;
            },
            None => {},
        }
        HeadStep::More
    }
}

} // verus!

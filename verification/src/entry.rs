//! Forum entries (topic headers and posts) and their byte format: an
//! optional tag count with the tags, the author's id as eight big-endian
//! bytes, then the text as UTF-8.
use crate::chars::{chars_of, split_lines, spec_lines, string_of};
use vstd::prelude::*;
use vstd::string::*;
use vstd::utf8::{decode_utf8, encode_scalar, encode_utf8, valid_utf8};

verus! {

broadcast use vstd::utf8::group_utf8_lib;

/// Converts bytes to a string.
/// Calls `String::from_utf8`; the contract claims what the standard library
/// documents: a string comes back exactly when the bytes are valid UTF-8,
/// and it holds the characters they encode.
#[verifier::external_body]
pub(crate) fn utf8_string(bytes: Vec<u8>) -> (r: Option<String>)
    ensures
        r is Some <==> valid_utf8(bytes@),
        r matches Some(s) ==> s@ == decode_utf8(bytes@),
{
    match String::from_utf8(bytes) {
        Ok(s) => Some(s),
        Err(_) => None,
    }
}

/// The eight big-endian bytes of `a`.
pub open spec fn be_bytes(a: u64) -> Seq<u8> {
    seq![
        (a >> 56u64) as u8,
        (a >> 48u64) as u8,
        (a >> 40u64) as u8,
        (a >> 32u64) as u8,
        (a >> 24u64) as u8,
        (a >> 16u64) as u8,
        (a >> 8u64) as u8,
        a as u8,
    ]
}

/// The number whose big-endian bytes are the first eight of `b`.
pub open spec fn be_u64(b: Seq<u8>) -> u64 {
    ((b[0] as u64) << 56u64) | ((b[1] as u64) << 48u64) | ((b[2] as u64) << 40u64) | ((
    b[3] as u64) << 32u64) | ((b[4] as u64) << 24u64) | ((b[5] as u64) << 16u64) | ((
    b[6] as u64) << 8u64) | (b[7] as u64)
}

/// Reading back the bytes of a number gives the number.
pub proof fn lemma_be_roundtrip(a: u64)
    ensures
        be_u64(be_bytes(a)) == a,
{
    let b = be_bytes(a);
    assert(((((a >> 56u64) as u8) as u64) << 56u64) | ((((a >> 48u64) as u8) as u64) << 48u64) | ((
    ((a >> 40u64) as u8) as u64) << 40u64) | ((((a >> 32u64) as u8) as u64) << 32u64) | ((((a
        >> 24u64) as u8) as u64) << 24u64) | ((((a >> 16u64) as u8) as u64) << 16u64) | ((((a
        >> 8u64) as u8) as u64) << 8u64) | ((a as u8) as u64) == a) by (bit_vector);
}

/// The bytes of an entry. The tag count and the tags are left out of a
/// manifest or of a post that does not open a topic.
pub open spec fn spec_encode(author: u64, tags: Seq<u8>, text: Seq<char>, plain: bool) -> Seq<u8> {
    let head = if plain {
        Seq::<u8>::empty()
    } else {
        seq![(tags.len() % 256) as u8] + tags
    };
    head + be_bytes(author) + encode_utf8(text)
}

/// Where the author's bytes start: after the tag count and the tags, when present.
pub open spec fn author_at(b: Seq<u8>, plain: bool) -> int {
    if plain {
        0
    } else {
        1 + b[0]
    }
}

/// Reading stops with a panic on these inputs: a tag count that promises
/// more bytes than there are.
pub open spec fn decodable(b: Seq<u8>, plain: bool) -> bool {
    b.len() >= 9 ==> author_at(b, plain) + 8 <= b.len()
}

/// The tags, author and text that the bytes hold, or nothing when they are
/// too short or the text is not UTF-8.
pub open spec fn spec_decode(b: Seq<u8>, plain: bool) -> Option<(Seq<u8>, u64, Seq<char>)> {
    if b.len() < 9 {
        None
    } else {
        let k = author_at(b, plain);
        let rest = b.subrange(k + 8, b.len() as int);
        if valid_utf8(rest) {
            Some(
                (
                    if plain {
                        Seq::<u8>::empty()
                    } else {
                        b.subrange(1, k)
                    },
                    be_u64(b.subrange(k, k + 8)),
                    decode_utf8(rest),
                ),
            )
        } else {
            None
        }
    }
}

/// Reading back the bytes of an entry gives its author, text and (unless
/// left out) tags, when it has fewer than 256 tags and, without tags, a
/// text that is not empty.
pub proof fn lemma_entry_roundtrip(author: u64, tags: Seq<u8>, text: Seq<char>, plain: bool)
    requires
        tags.len() < 256,
        plain ==> text.len() > 0,
    ensures
        decodable(spec_encode(author, tags, text, plain), plain),
        spec_decode(spec_encode(author, tags, text, plain), plain) == Some(
            (if plain {
                Seq::<u8>::empty()
            } else {
                tags
            }, author, text),
        ),
{
    let b = spec_encode(author, tags, text, plain);
    let head = if plain {
        Seq::<u8>::empty()
    } else {
        seq![(tags.len() % 256) as u8] + tags
    };
    let k = head.len() as int;
    assert(!plain ==> b[0] == tags.len());
    if text.len() > 0 {
        assert(encode_scalar(text[0] as u32).len() >= 1);
        assert(encode_utf8(text).len() >= 1);
    }
    assert(author_at(b, plain) == k);
    assert(b.subrange(k, k + 8) =~= be_bytes(author));
    lemma_be_roundtrip(author);
    assert(b.subrange(k + 8, b.len() as int) =~= encode_utf8(text));
    if !plain {
        assert(b.subrange(1, k) =~= tags);
    }
}

/// A topic header or a post.
#[derive(Clone, Debug)]
pub struct Entry {
    pub author: u64,
    pub tags: Vec<u8>,
    pub text: String,
    pub hash: u64,
}

/// The bytes `v[a..b]`.
fn copy_range(v: &Vec<u8>, a: usize, b: usize) -> (r: Vec<u8>)
    requires
        a <= b <= v.len(),
    ensures
        r@ == v@.subrange(a as int, b as int),
{
    let mut r: Vec<u8> = Vec::new();
    let mut i: usize = a;
    while i < b
        invariant
            a <= i <= b <= v.len(),
            r@ == v@.subrange(a as int, i as int),
        decreases b - i,
    {
        r.push(v[i]);
        i = i + 1;
        proof {
            assert(r@ =~= v@.subrange(a as int, i as int));
        }
    }
    r
}

/// A character of the Unicode White_Space property.
pub open spec fn white_space(c: char) -> bool {
    ||| ('\u{9}' <= c <= '\u{d}')
    ||| c == ' '
    ||| c == '\u{85}'
    ||| c == '\u{a0}'
    ||| c == '\u{1680}'
    ||| ('\u{2000}' <= c <= '\u{200a}')
    ||| c == '\u{2028}'
    ||| c == '\u{2029}'
    ||| c == '\u{202f}'
    ||| c == '\u{205f}'
    ||| c == '\u{3000}'
}

pub fn is_white_space(c: char) -> (b: bool)
    ensures
        b == white_space(c),
{
    ('\u{9}' <= c && c <= '\u{d}') || c == ' ' || c == '\u{85}' || c == '\u{a0}' || c
        == '\u{1680}' || ('\u{2000}' <= c && c <= '\u{200a}') || c == '\u{2028}' || c
        == '\u{2029}' || c == '\u{202f}' || c == '\u{205f}' || c == '\u{3000}'
}

/// The number of leading white space characters.
pub open spec fn lead_ws(s: Seq<char>) -> int
    decreases s.len(),
{
    if s.len() > 0 && white_space(s[0]) {
        1 + lead_ws(s.drop_first())
    } else {
        0
    }
}

/// The number of trailing white space characters.
pub open spec fn trail_ws(s: Seq<char>) -> int
    decreases s.len(),
{
    if s.len() > 0 && white_space(s.last()) {
        1 + trail_ws(s.drop_last())
    } else {
        0
    }
}

/// `s` without leading and trailing white space.
pub open spec fn trimmed(s: Seq<char>) -> Seq<char> {
    let a = lead_ws(s);
    let t = s.subrange(a, s.len() as int);
    t.subrange(0, t.len() - trail_ws(t))
}

proof fn lemma_lead_ws(s: Seq<char>, i: int)
    requires
        0 <= i <= s.len(),
        forall|j: int| 0 <= j < i ==> white_space(#[trigger] s[j]),
        i == s.len() || !white_space(s[i]),
    ensures
        lead_ws(s) == i,
    decreases s.len(),
{
    if i > 0 {
        let t = s.drop_first();
        assert forall|j: int| 0 <= j < i - 1 implies white_space(#[trigger] t[j]) by {
            assert(t[j] == s[j + 1]);
        }
        if i < s.len() {
            assert(t[i - 1] == s[i]);
        }
        lemma_lead_ws(t, i - 1);
    }
}

proof fn lemma_trail_ws(s: Seq<char>, e: int)
    requires
        0 <= e <= s.len(),
        forall|j: int| e <= j < s.len() ==> white_space(#[trigger] s[j]),
        e == 0 || !white_space(s[e - 1]),
    ensures
        trail_ws(s) == s.len() - e,
    decreases s.len(),
{
    if e < s.len() {
        let t = s.drop_last();
        assert forall|j: int| e <= j < t.len() implies white_space(#[trigger] t[j]) by {
            assert(t[j] == s[j]);
        }
        if e > 0 {
            assert(t[e - 1] == s[e - 1]);
        }
        lemma_trail_ws(t, e);
    }
}

/// The characters of `v` without leading and trailing white space.
pub fn trim_chars(v: &Vec<char>) -> (r: Vec<char>)
    ensures
        r@ == trimmed(v@),
{
    let n = v.len();
    let mut a: usize = 0;
    while a < n && is_white_space(v[a])
        invariant
            n == v.len(),
            a <= n,
            forall|j: int| 0 <= j < a ==> white_space(#[trigger] v@[j]),
        decreases n - a,
    {
        a = a + 1;
    }
    proof {
        lemma_lead_ws(v@, a as int);
    }
    let mut e: usize = n;
    while e > a && is_white_space(v[e - 1])
        invariant
            n == v.len(),
            a <= e <= n,
            forall|j: int| e <= j < n ==> white_space(#[trigger] v@[j]),
        decreases e,
    {
        e = e - 1;
    }
    let ghost t = v@.subrange(a as int, n as int);
    proof {
        assert forall|j: int| e - a <= j < t.len() implies white_space(#[trigger] t[j]) by {
            assert(t[j] == v@[j + a]);
        }
        if e > a {
            assert(t[e - a - 1] == v@[e - 1]);
        }
        lemma_trail_ws(t, e - a);
        assert(t.subrange(0, e - a) =~= v@.subrange(a as int, e as int));
    }
    let mut r: Vec<char> = Vec::new();
    let mut i: usize = a;
    while i < e
        invariant
            a <= i <= e <= n,
            n == v.len(),
            r@ == v@.subrange(a as int, i as int),
        decreases e - i,
    {
        r.push(v[i]);
        i = i + 1;
        proof {
            assert(r@ =~= v@.subrange(a as int, i as int));
        }
    }
    r
}

/// The text part of an entry's line: the first line of the text, trimmed,
/// cut to `width` characters and padded with spaces to `width`; `No text`
/// for an empty text.
pub open spec fn line_text(text: Seq<char>, width: int) -> Seq<char> {
    let base = if spec_lines(text).len() == 0 {
        "No text"@
    } else {
        let t = trimmed(spec_lines(text)[0]);
        if t.len() > width {
            t.subrange(0, width)
        } else {
            t
        }
    };
    if base.len() < width {
        base + Seq::new((width - base.len()) as nat, |i: int| ' ')
    } else {
        base
    }
}

impl Entry {
    pub fn new(author: u64, tags: Vec<u8>, text: String, hash: u64) -> (e: Entry)
        ensures
            e.author == author,
            e.tags@ == tags@,
            e.text@ == text@,
            e.hash == hash,
    {
        Entry { author, tags, text, hash }
    }

    /// The placeholder entry: no tags, text `Empty`, hash 0, written by `any_author`.
    pub fn empty(any_author: u64) -> (e: Entry)
        ensures
            e.author == any_author,
            e.tags@.len() == 0,
            e.text@ == "Empty"@,
            e.hash == 0,
    {
        Entry { author: any_author, tags: Vec::new(), text: String::from_str("Empty"), hash: 0 }
    }

    /// Reads an entry from its bytes; `plain` says that they hold no tags.
    pub fn from_data(bytes: &Vec<u8>, hash: u64, plain: bool) -> (r: Result<Entry, ()>)
        requires
            decodable(bytes@, plain),
        ensures
            match spec_decode(bytes@, plain) {
                None => r is Err,
                Some(d) => r matches Ok(e) && e.tags@ == d.0 && e.author == d.1 && e.text@ == d.2
                    && e.hash == hash,
            },
    {
        let n = bytes.len();
        if n < 9 {
            return Err(());
        }
        let (start, count): (usize, usize) = if plain {
            (0, 0)
        } else {
            (1, bytes[0] as usize)
        };
        let k = start + count;
        let tags = copy_range(bytes, start, k);
        let author: u64 = ((bytes[k] as u64) << 56u64) | ((bytes[k + 1] as u64) << 48u64) | ((
        bytes[k + 2] as u64) << 40u64) | ((bytes[k + 3] as u64) << 32u64) | ((bytes[k
            + 4] as u64) << 24u64) | ((bytes[k + 5] as u64) << 16u64) | ((bytes[k + 6] as u64)
            << 8u64) | (bytes[k + 7] as u64);
        let rest = copy_range(bytes, k + 8, n);
        proof {
            assert(k == author_at(bytes@, plain));
            let a = bytes@.subrange(k as int, k + 8);
            assert(a[0] == bytes[k as int] && a[1] == bytes[k + 1] && a[2] == bytes[k + 2] && a[3]
                == bytes[k + 3] && a[4] == bytes[k + 4] && a[5] == bytes[k + 5] && a[6] == bytes[k
                + 6] && a[7] == bytes[k + 7]);
            assert(author == be_u64(a));
            if plain {
                assert(tags@ =~= Seq::<u8>::empty());
            }
        }
        match utf8_string(rest) {
            Some(text) => Ok(Entry { author, tags, text, hash }),
            None => Err(()),
        }
    }

    /// The entry's bytes; `plain` leaves the tag count and the tags out.
    pub fn into_data(&self, plain: bool) -> (r: Vec<u8>)
        ensures
            r@ == spec_encode(self.author, self.tags@, self.text@, plain),
    {
        let mut bytes: Vec<u8> = Vec::new();
        if !plain {
            bytes.push((self.tags.len() % 256) as u8);
            let mut i: usize = 0;
            while i < self.tags.len()
                invariant
                    i <= self.tags.len(),
                    bytes@ == seq![(self.tags@.len() % 256) as u8] + self.tags@.subrange(0, i as int),
                decreases self.tags.len() - i,
            {
                bytes.push(self.tags[i]);
                i = i + 1;
                proof {
                    assert(bytes@ =~= seq![(self.tags@.len() % 256) as u8] + self.tags@.subrange(
                        0,
                        i as int,
                    ));
                }
            }
            proof {
                assert(self.tags@.subrange(0, self.tags.len() as int) =~= self.tags@);
            }
        }
        let ghost head = bytes@;
        let a = self.author;
        bytes.push((a >> 56u64) as u8);
        bytes.push((a >> 48u64) as u8);
        bytes.push((a >> 40u64) as u8);
        bytes.push((a >> 32u64) as u8);
        bytes.push((a >> 24u64) as u8);
        bytes.push((a >> 16u64) as u8);
        bytes.push((a >> 8u64) as u8);
        bytes.push(a as u8);
        proof {
            assert(bytes@ =~= head + be_bytes(a));
        }
        let ghost mid = bytes@;
        let t = self.text.as_str().as_bytes();
        let mut j: usize = 0;
        while j < t.len()
            invariant
                j <= t@.len(),
                t@ == encode_utf8(self.text@),
                bytes@ == mid + t@.subrange(0, j as int),
            decreases t@.len() - j,
        {
            bytes.push(t[j]);
            j = j + 1;
            proof {
                assert(bytes@ =~= mid + t@.subrange(0, j as int));
            }
        }
        proof {
            assert(t@.subrange(0, t@.len() as int) =~= t@);
        }
        bytes
    }

    /// The line that lists this entry: the text part (see `line_text`) of
    /// width `size - 21`, a space, and the author's name as displayed.
    pub fn entry_line(&self, size: usize, author_name: &str) -> (r: String)
        requires
            size >= 21,
        ensures
            r@ == line_text(self.text@, size - 21) + seq![' '] + author_name@,
    {
        let width = size - 21;
        let chars = chars_of(self.text.as_str());
        let ls = split_lines(&chars);
        let mut line: Vec<char> = Vec::new();
        if ls.len() == 0 {
            line = chars_of("No text");
            proof {
                reveal_strlit("No text");
            }
        } else {
            proof {
                assert(ls@.map_values(|l: Vec<char>| l@)[0] == ls@[0]@);
            }
            let t = trim_chars(&ls[0]);
            let mut i: usize = 0;
            while i < t.len() && i < width
                invariant
                    i <= t.len(),
                    i <= width,
                    line@ == t@.subrange(0, i as int),
                decreases t.len() - i,
            {
                line.push(t[i]);
                i = i + 1;
                proof {
                    assert(line@ =~= t@.subrange(0, i as int));
                }
            }
            proof {
                if t.len() <= width {
                    assert(t@.subrange(0, t.len() as int) =~= t@);
                }
            }
        }
        let ghost base = line@;
        while line.len() < width
            invariant
                base.len() <= line.len(),
                line.len() <= width || line.len() == base.len(),
                line@ == base + Seq::new((line.len() - base.len()) as nat, |i: int| ' '),
            decreases width - line.len(),
        {
            line.push(' ');
            proof {
                assert(line@ =~= base + Seq::new((line.len() - base.len()) as nat, |i: int| ' '));
            }
        }
        proof {
            if base.len() >= width {
                assert(line@ =~= base);
            }
        }
        line.push(' ');
        let name = chars_of(author_name);
        let mut k: usize = 0;
        let ghost before = line@;
        while k < name.len()
            invariant
                k <= name.len(),
                line@ == before + name@.subrange(0, k as int),
            decreases name.len() - k,
        {
            line.push(name[k]);
            k = k + 1;
            proof {
                assert(line@ =~= before + name@.subrange(0, k as int));
            }
        }
        proof {
            assert(name@.subrange(0, name.len() as int) =~= name@);
        }
        string_of(&line)
    }
}

} // verus!

//! Thumbnail options and the query strings they are read from.
//!
//! A query string is a list of pieces separated by `&`. A piece with an `=`
//! gives the text before the first `=` as a key and the text after it as the
//! value. Only the keys `url` and `width` are kept; where a key comes more
//! than once, the last piece wins.

use vstd::prelude::*;
use vstd::string::{StrSliceExecFns, StringExecFns};
use crate::decimal::{parse_decimal, parse_u32};

pub use vstd::hash_map::StringHashMap;

verus! {

/// The width of a thumbnail where the query names none.
pub const DEFAULT_WIDTH: u32 = 180;

/// The position of the first `ch` in `s` at or after `from`, or the length
/// of `s` where there is none.
pub open spec fn find_from(s: Seq<char>, ch: char, from: int) -> int
    decreases s.len() - from,
{
    if from >= s.len() {
        s.len() as int
    } else if s[from] == ch {
        from
    } else {
        find_from(s, ch, from + 1)
    }
}

/// What one piece of a query gives to `key`: the text after its first `=`,
/// where the text before it is `key`.
pub open spec fn piece_value(piece: Seq<char>, key: Seq<char>) -> Option<Seq<char>> {
    let eq = find_from(piece, '=', 0);
    if eq < piece.len() && piece.subrange(0, eq) == key {
        Some(piece.subrange(eq + 1, piece.len() as int))
    } else {
        None
    }
}

/// What the pieces of `s` from position `start` on give to `key`, the last
/// one winning; `earlier` where none of them gives anything.
pub open spec fn lookup_from(
    s: Seq<char>,
    key: Seq<char>,
    start: int,
    earlier: Option<Seq<char>>,
) -> Option<Seq<char>>
    decreases s.len() - start,
{
    let end = find_from(s, '&', start);
    let here = piece_value(s.subrange(start, end), key);
    let found = if here is Some {
        here
    } else {
        earlier
    };
    if 0 <= start <= end < s.len() {
        lookup_from(s, key, end + 1, found)
    } else {
        found
    }
}

/// What the query `s` gives to `key`.
pub open spec fn lookup(s: Seq<char>, key: Seq<char>) -> Option<Seq<char>> {
    lookup_from(s, key, 0, None)
}

/// What a map of strings holds for `key`.
pub open spec fn held(m: Map<Seq<char>, String>, key: Seq<char>) -> Option<Seq<char>> {
    if m.contains_key(key) {
        Some(m[key]@)
    } else {
        None
    }
}

/// The position of the first `ch` in `s` at or after `from`.
fn find_char(s: &str, ch: char, from: usize, len: usize) -> (at: usize)
    requires
        from <= len,
        len == s@.len(),
    ensures
        at == find_from(s@, ch, from as int),
        from <= at <= len,
{
    let mut i: usize = from;
    while i < len
        invariant
            from <= i <= len,
            len == s@.len(),
            find_from(s@, ch, from as int) == find_from(s@, ch, i as int),
        decreases len - i,
    {
        if s.get_char(i) == ch {
            return i;
        }
        i = i + 1;
    }
    i
}

/// Whether two strings hold the same text.
fn same_text(a: &str, b: &str) -> (same: bool)
    ensures
        same == (a@ == b@),
{
    let x = String::from_str(a);
    let y = String::from_str(b);
    x == y
}

/// Reads the `url` and `width` entries of a query string.
pub fn querify(string: &str) -> (acc: StringHashMap<String>)
    ensures
        forall|k: Seq<char>| acc@.contains_key(k) ==> k == "url"@ || k == "width"@,
        held(acc@, "url"@) == lookup(string@, "url"@),
        held(acc@, "width"@) == lookup(string@, "width"@),
{
    proof {
        reveal_strlit("url");
        reveal_strlit("width");
        assert("url"@.len() == 3);
        assert("width"@.len() == 5);
    }
    let len = string.unicode_len();
    let mut acc: StringHashMap<String> = StringHashMap::new();
    let mut start: usize = 0;
    let mut done = false;
    while !done
        invariant
            len == string@.len(),
            "url"@ != "width"@,
            forall|k: Seq<char>| acc@.contains_key(k) ==> k == "url"@ || k == "width"@,
            !done ==> start <= len,
            !done ==> lookup(string@, "url"@) == lookup_from(
                string@,
                "url"@,
                start as int,
                held(acc@, "url"@),
            ),
            !done ==> lookup(string@, "width"@) == lookup_from(
                string@,
                "width"@,
                start as int,
                held(acc@, "width"@),
            ),
            done ==> lookup(string@, "url"@) == held(acc@, "url"@),
            done ==> lookup(string@, "width"@) == held(acc@, "width"@),
        decreases
                if done {
                    0
                } else {
                    len - start + 1
                },
    {
        let end = find_char(string, '&', start, len);
        let piece = string.substring_char(start, end);
        let piece_len = end - start;
        let eq = find_char(piece, '=', 0, piece_len);
        let ghost before = acc@;
        if eq < piece_len {
            let key = piece.substring_char(0, eq);
            let value = piece.substring_char(eq + 1, piece_len);
            if same_text(key, "url") {
                acc.insert(String::from_str("url"), String::from_str(value));
            } else if same_text(key, "width") {
                acc.insert(String::from_str("width"), String::from_str(value));
            }
        }
        proof {
            assert(held(acc@, "url"@) == (if piece_value(piece@, "url"@) is Some {
                piece_value(piece@, "url"@)
            } else {
                held(before, "url"@)
            }));
            assert(held(acc@, "width"@) == (if piece_value(piece@, "width"@) is Some {
                piece_value(piece@, "width"@)
            } else {
                held(before, "width"@)
            }));
        }
        if end >= len {
            done = true;
        } else {
            start = end + 1;
        }
    }
    acc
}

/// The mathematical content of [`ThumbOptions`].
pub struct ThumbOptionsView {
    pub url: Seq<char>,
    pub width: u32,
}

/// What a thumbnail request asks for: the image to fetch and the width to
/// give it.
pub struct ThumbOptions {
    url: String,
    width: u32,
}

impl View for ThumbOptions {
    type V = ThumbOptionsView;

    closed spec fn view(&self) -> ThumbOptionsView {
        ThumbOptionsView { url: self.url@, width: self.width }
    }
}

/// The options that the entries `url` and `width` of a query stand for, where
/// they stand for any: the width must be a number that fits `u32`. An absent
/// `url` is empty, an absent `width` is 180.
pub open spec fn options_of(url: Option<Seq<char>>, width: Option<Seq<char>>) -> Option<
    ThumbOptionsView,
> {
    let url_text = match url {
        Some(text) => text,
        None => Seq::<char>::empty(),
    };
    match width {
        None => Some(ThumbOptionsView { url: url_text, width: DEFAULT_WIDTH }),
        Some(text) => match parse_decimal(text, u32::MAX as int) {
            Some(w) => Some(ThumbOptionsView { url: url_text, width: w as u32 }),
            None => None,
        },
    }
}

impl ThumbOptions {
    /// The options that the entries `url` and `width` of `opts` stand for.
    /// A `width` entry must hold a number that fits `u32`.
    pub fn new(opts: StringHashMap<String>) -> (t: ThumbOptions)
        requires
            options_of(held(opts@, "url"@), held(opts@, "width"@)) is Some,
        ensures
            Some(t@) == options_of(held(opts@, "url"@), held(opts@, "width"@)),
    {
        let url: String = match opts.get("url") {
            Some(val) => val.clone(),
            None => String::new(),
        };
        let width: u32 = match opts.get("width") {
            Some(val) => parse_u32(val.as_str()).unwrap(),
            None => DEFAULT_WIDTH,
        };
        ThumbOptions { url, width }
    }

    /// The options that a query string stands for, or `None` where its
    /// `width` is not a number that fits `u32`.
    pub fn from_query(query: &str) -> (t: Option<ThumbOptions>)
        ensures
            t is Some <==> options_of(lookup(query@, "url"@), lookup(query@, "width"@)) is Some,
            t matches Some(options) ==> Some(options@) == options_of(
                lookup(query@, "url"@),
                lookup(query@, "width"@),
            ),
    {
        let qs = querify(query);
        let usable = match qs.get("width") {
            Some(val) => parse_u32(val.as_str()).is_some(),
            None => true,
        };
        if usable {
            Some(ThumbOptions::new(qs))
        } else {
            None
        }
    }

    /// The address of the image.
    pub fn url(&self) -> (url: &str)
        ensures
            url@ == self@.url,
    {
        self.url.as_str()
    }

    /// The width of the thumbnail.
    pub fn width(&self) -> (width: u32)
        ensures
            width == self@.width,
    {
        self.width
    }
}

} // verus!

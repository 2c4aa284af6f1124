//! Encodings of zenoh values: a known MIME type, refined by a free suffix.
use vstd::prelude::*;
use crate::text::{chars_of, owned, push_str, starts_with_text, string_of};

verus! {

/// The MIME types that an encoding's prefix can name.
#[derive(PartialEq, Eq, Structural, Debug, Clone, Copy)]
pub enum KnownEncoding {
    Empty,
    AppOctetStream,
    AppCustom,
    TextPlain,
    AppProperties,
    AppJson,
    AppSql,
    AppInteger,
    AppFloat,
    AppXml,
    AppXhtmlXml,
    AppXWwwFormUrlencoded,
    TextJson,
    TextHtml,
    TextXml,
    TextCss,
    TextCsv,
    TextJavascript,
    ImageJpeg,
    ImagePng,
    ImageGif,
}

/// The MIME text of a known encoding.
pub open spec fn mime_text(k: KnownEncoding) -> Seq<char> {
    match k {
        KnownEncoding::Empty => ""@,
        KnownEncoding::AppOctetStream => "application/octet-stream"@,
        KnownEncoding::AppCustom => "application/custom"@,
        KnownEncoding::TextPlain => "text/plain"@,
        KnownEncoding::AppProperties => "application/properties"@,
        KnownEncoding::AppJson => "application/json"@,
        KnownEncoding::AppSql => "application/sql"@,
        KnownEncoding::AppInteger => "application/integer"@,
        KnownEncoding::AppFloat => "application/float"@,
        KnownEncoding::AppXml => "application/xml"@,
        KnownEncoding::AppXhtmlXml => "application/xhtml+xml"@,
        KnownEncoding::AppXWwwFormUrlencoded => "application/x-www-form-urlencoded"@,
        KnownEncoding::TextJson => "text/json"@,
        KnownEncoding::TextHtml => "text/html"@,
        KnownEncoding::TextXml => "text/xml"@,
        KnownEncoding::TextCss => "text/css"@,
        KnownEncoding::TextCsv => "text/csv"@,
        KnownEncoding::TextJavascript => "text/javascript"@,
        KnownEncoding::ImageJpeg => "image/jpeg"@,
        KnownEncoding::ImagePng => "image/png"@,
        KnownEncoding::ImageGif => "image/gif"@,
    }
}

/// The MIME text of a known encoding.
pub fn mime(k: KnownEncoding) -> (m: &'static str)
    ensures
        m@ == mime_text(k),
{
    match k {
        KnownEncoding::Empty => "",
        KnownEncoding::AppOctetStream => "application/octet-stream",
        KnownEncoding::AppCustom => "application/custom",
        KnownEncoding::TextPlain => "text/plain",
        KnownEncoding::AppProperties => "application/properties",
        KnownEncoding::AppJson => "application/json",
        KnownEncoding::AppSql => "application/sql",
        KnownEncoding::AppInteger => "application/integer",
        KnownEncoding::AppFloat => "application/float",
        KnownEncoding::AppXml => "application/xml",
        KnownEncoding::AppXhtmlXml => "application/xhtml+xml",
        KnownEncoding::AppXWwwFormUrlencoded => "application/x-www-form-urlencoded",
        KnownEncoding::TextJson => "text/json",
        KnownEncoding::TextHtml => "text/html",
        KnownEncoding::TextXml => "text/xml",
        KnownEncoding::TextCss => "text/css",
        KnownEncoding::TextCsv => "text/csv",
        KnownEncoding::TextJavascript => "text/javascript",
        KnownEncoding::ImageJpeg => "image/jpeg",
        KnownEncoding::ImagePng => "image/png",
        KnownEncoding::ImageGif => "image/gif",
    }
}

/// The number of known encodings that a MIME text is matched against.
pub open spec fn searched_count() -> nat {
    20
}

/// The `i`-th known encoding in the order in which a MIME text is matched against them:
/// every known encoding but `Empty`, in declaration order.
pub open spec fn searched(i: nat) -> KnownEncoding {
    if i == 0 {
        KnownEncoding::AppOctetStream
    } else if i == 1 {
        KnownEncoding::AppCustom
    } else if i == 2 {
        KnownEncoding::TextPlain
    } else if i == 3 {
        KnownEncoding::AppProperties
    } else if i == 4 {
        KnownEncoding::AppJson
    } else if i == 5 {
        KnownEncoding::AppSql
    } else if i == 6 {
        KnownEncoding::AppInteger
    } else if i == 7 {
        KnownEncoding::AppFloat
    } else if i == 8 {
        KnownEncoding::AppXml
    } else if i == 9 {
        KnownEncoding::AppXhtmlXml
    } else if i == 10 {
        KnownEncoding::AppXWwwFormUrlencoded
    } else if i == 11 {
        KnownEncoding::TextJson
    } else if i == 12 {
        KnownEncoding::TextHtml
    } else if i == 13 {
        KnownEncoding::TextXml
    } else if i == 14 {
        KnownEncoding::TextCss
    } else if i == 15 {
        KnownEncoding::TextCsv
    } else if i == 16 {
        KnownEncoding::TextJavascript
    } else if i == 17 {
        KnownEncoding::ImageJpeg
    } else if i == 18 {
        KnownEncoding::ImagePng
    } else {
        KnownEncoding::ImageGif
    }
}

fn searched_at(i: usize) -> (k: KnownEncoding)
    requires
        i < 20,
    ensures
        k == searched(i as nat),
{
    match i {
        0 => KnownEncoding::AppOctetStream,
        1 => KnownEncoding::AppCustom,
        2 => KnownEncoding::TextPlain,
        3 => KnownEncoding::AppProperties,
        4 => KnownEncoding::AppJson,
        5 => KnownEncoding::AppSql,
        6 => KnownEncoding::AppInteger,
        7 => KnownEncoding::AppFloat,
        8 => KnownEncoding::AppXml,
        9 => KnownEncoding::AppXhtmlXml,
        10 => KnownEncoding::AppXWwwFormUrlencoded,
        11 => KnownEncoding::TextJson,
        12 => KnownEncoding::TextHtml,
        13 => KnownEncoding::TextXml,
        14 => KnownEncoding::TextCss,
        15 => KnownEncoding::TextCsv,
        16 => KnownEncoding::TextJavascript,
        17 => KnownEncoding::ImageJpeg,
        18 => KnownEncoding::ImagePng,
        _ => KnownEncoding::ImageGif,
    }
}

/// The first known encoding, from the `i`-th in search order on, whose MIME text begins `s`.
pub open spec fn first_match_from(s: Seq<char>, i: nat) -> Option<KnownEncoding>
    decreases searched_count() - i,
{
    if i >= searched_count() {
        None
    } else if mime_text(searched(i)).is_prefix_of(s) {
        Some(searched(i))
    } else {
        first_match_from(s, i + 1)
    }
}

/// An encoding: a known MIME type and a suffix that refines it.
pub struct Encoding {
    pub prefix: KnownEncoding,
    pub suffix: String,
}

/// The encoding that a MIME text names: the first known MIME text that begins it, with the
/// rest as suffix; `Empty` with the whole text as suffix when none does.
pub open spec fn encoding_of_text(s: Seq<char>) -> (KnownEncoding, Seq<char>) {
    match first_match_from(s, 0) {
        Some(k) => (k, s.skip(mime_text(k).len() as int)),
        None => (KnownEncoding::Empty, s),
    }
}

/// The text of an encoding: its MIME text followed by its suffix.
pub open spec fn encoding_text(e: Encoding) -> Seq<char> {
    mime_text(e.prefix) + e.suffix@
}

proof fn lemma_first_match_is_prefix(s: Seq<char>, i: nat)
    ensures
        first_match_from(s, i) matches Some(k) ==> mime_text(k).is_prefix_of(s),
    decreases searched_count() - i,
{
    if i < searched_count() && !mime_text(searched(i)).is_prefix_of(s) {
        lemma_first_match_is_prefix(s, i + 1);
    }
}

/// Reading an encoding from a MIME text and writing it back gives the same text.
pub proof fn lemma_encoding_text_roundtrip(s: Seq<char>)
    ensures
        mime_text(encoding_of_text(s).0) + encoding_of_text(s).1 == s,
{
    lemma_first_match_is_prefix(s, 0);
    match first_match_from(s, 0) {
        Some(k) => {
            assert(mime_text(k) + s.skip(mime_text(k).len() as int) =~= s);
        },
        None => {
            reveal_strlit("");
            assert(mime_text(KnownEncoding::Empty) + s =~= s);
        },
    }
}

/// A content type naming plain text, a property list or JSON, parameters or not, is read as
/// that known encoding: what a write names is how a read renders the value.
pub proof fn lemma_known_content_types(c: Seq<char>)
    ensures
        "text/plain"@.is_prefix_of(c) ==> encoding_of_text(c).0 == KnownEncoding::TextPlain,
        "application/properties"@.is_prefix_of(c) ==> encoding_of_text(c).0 == KnownEncoding::AppProperties,
        "application/json"@.is_prefix_of(c) ==> encoding_of_text(c).0 == KnownEncoding::AppJson,
{
    reveal_strlit("application/octet-stream");
    reveal_strlit("application/custom");
    reveal_strlit("text/plain");
    reveal_strlit("application/properties");
    reveal_strlit("application/json");
    if "text/plain"@.is_prefix_of(c) {
        assert(c.subrange(0, 10)[0] == c[0]);
        assert("text/plain"@[0] == 't');
        assert(c[0] == 't');
        assert(!mime_text(searched(0)).is_prefix_of(c)) by {
            assert(mime_text(searched(0))[0] != c[0]);
        }
        assert(!mime_text(searched(1)).is_prefix_of(c)) by {
            assert(mime_text(searched(1))[0] != c[0]);
        }
        assert(first_match_from(c, 2) == Some(KnownEncoding::TextPlain));
        assert(first_match_from(c, 1) == first_match_from(c, 2));
        assert(first_match_from(c, 0) == first_match_from(c, 1));
    }
    if "application/properties"@.is_prefix_of(c) {
        assert(c.subrange(0, 22)[12] == c[12] && c.subrange(0, 22)[0] == c[0]);
        assert("application/properties"@[12] == 'p' && "application/properties"@[0] == 'a');
        assert(c[12] == 'p' && c[0] == 'a');
        assert(!mime_text(searched(0)).is_prefix_of(c)) by {
            assert(mime_text(searched(0))[12] != c[12]);
        }
        assert(!mime_text(searched(1)).is_prefix_of(c)) by {
            assert(mime_text(searched(1))[12] != c[12]);
        }
        assert(!mime_text(searched(2)).is_prefix_of(c)) by {
            assert(mime_text(searched(2))[0] != c[0]);
        }
        assert(first_match_from(c, 3) == Some(KnownEncoding::AppProperties));
        assert(first_match_from(c, 2) == first_match_from(c, 3));
        assert(first_match_from(c, 1) == first_match_from(c, 2));
        assert(first_match_from(c, 0) == first_match_from(c, 1));
    }
    if "application/json"@.is_prefix_of(c) {
        assert(c.subrange(0, 16)[12] == c[12] && c.subrange(0, 16)[0] == c[0]);
        assert("application/json"@[12] == 'j' && "application/json"@[0] == 'a');
        assert(c[12] == 'j' && c[0] == 'a');
        assert(!mime_text(searched(0)).is_prefix_of(c)) by {
            assert(mime_text(searched(0))[12] != c[12]);
        }
        assert(!mime_text(searched(1)).is_prefix_of(c)) by {
            assert(mime_text(searched(1))[12] != c[12]);
        }
        assert(!mime_text(searched(2)).is_prefix_of(c)) by {
            assert(mime_text(searched(2))[0] != c[0]);
        }
        assert(!mime_text(searched(3)).is_prefix_of(c)) by {
            assert(mime_text(searched(3))[12] != c[12]);
        }
        assert(first_match_from(c, 4) == Some(KnownEncoding::AppJson));
        assert(first_match_from(c, 3) == first_match_from(c, 4));
        assert(first_match_from(c, 2) == first_match_from(c, 3));
        assert(first_match_from(c, 1) == first_match_from(c, 2));
        assert(first_match_from(c, 0) == first_match_from(c, 1));
    }
}

impl Encoding {
    /// The encoding of `k`, without suffix.
    pub fn exact(k: KnownEncoding) -> (e: Encoding)
        ensures
            e.prefix == k,
            e.suffix@ == Seq::<char>::empty(),
    {
        Encoding { prefix: k, suffix: String::new() }
    }

    /// The encoding that a MIME text (such as a request's content type) names.
    pub fn from_mime(s: &str) -> (e: Encoding)
        ensures
            (e.prefix, e.suffix@) == encoding_of_text(s@),
    {
        let v = chars_of(s);
        let mut i: usize = 0;
        while i < 20
            invariant
                i <= 20,
                v@ == s@,
                first_match_from(s@, 0) == first_match_from(s@, i as nat),
            decreases 20 - i,
        {
            let k = searched_at(i);
            let m = mime(k);
            if starts_with_text(s, m) {
                let ghost n = mime_text(k).len();
                let suffix = string_of(&v, chars_of(m).len(), v.len());
                assert(suffix@ =~= s@.skip(n as int));
                return Encoding { prefix: k, suffix };
            }
            i = i + 1;
        }
        Encoding { prefix: KnownEncoding::Empty, suffix: owned(s) }
    }

    /// The text of this encoding, as zenoh displays it.
    pub fn to_text(&self) -> (t: String)
        ensures
            t@ == encoding_text(*self),
    {
        let mut t = owned(mime(self.prefix));
        push_str(&mut t, self.suffix.as_str());
        t
    }

    /// Whether this encoding refines `other`: the same known type, with a suffix that begins
    /// with `other`'s.
    pub fn starts_with(&self, other: &Encoding) -> (b: bool)
        ensures
            b == (self.prefix == other.prefix && other.suffix@.is_prefix_of(self.suffix@)),
    {
        self.prefix == other.prefix && starts_with_text(self.suffix.as_str(), other.suffix.as_str())
    }
}

} // verus!

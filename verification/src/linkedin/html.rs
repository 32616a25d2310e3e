//! The HTML of a search page, read through the `scraper` crate.
//!
//! An element is known here only by what can be asked of it: which elements below it a
//! selector matches, what an attribute holds and what text it has.
use vstd::prelude::*;
use vstd::utf8::encode_utf8;

verus! {

/// A parsed HTML document.
#[verifier::external_type_specification]
#[verifier::external_body]
pub struct ExHtml(scraper::Html);

/// A compiled CSS selector.
#[verifier::external_type_specification]
#[verifier::external_body]
pub struct ExSelector(scraper::Selector);

/// An element of a parsed document.
#[verifier::external_type_specification]
#[verifier::external_body]
pub struct ExElementRef<'a>(scraper::ElementRef<'a>);

/// What `scraper::Html::parse_document` makes of a text.
pub uninterp spec fn document(html: Seq<char>) -> scraper::Html;

/// What `scraper::Selector::parse` makes of a text, `None` where it reports an error.
pub uninterp spec fn selector(css: Seq<char>) -> Option<scraper::Selector>;

/// The elements of a document that a selector matches, in the order in which the parser made its
/// nodes.
pub uninterp spec fn all_matches(page: scraper::Html, wanted: scraper::Selector) -> Seq<
    scraper::ElementRef<'static>,
>;

/// The first element below an element that a selector matches.
pub uninterp spec fn first_match(
    element: scraper::ElementRef,
    wanted: scraper::Selector,
) -> Option<scraper::ElementRef>;

/// The value of an attribute of an element.
pub uninterp spec fn attribute(element: scraper::ElementRef, name: Seq<char>) -> Option<Seq<char>>;

/// The text of an element and of everything below it, concatenated.
pub uninterp spec fn inner_text(element: scraper::ElementRef) -> Seq<char>;

/// The most bytes that the parser can keep of a text in one buffer.
pub const BUFFER_BYTES: usize = 0x8000_0000;

/// The byte that a character reference begins with.
pub const AMPERSAND: u8 = 0x26;

/// How many bytes the parser may come to keep of a page with these bytes. A null character may
/// become a replacement character of three bytes, and a reference may stand for one byte more than
/// it has. All else takes no more than it has.
pub open spec fn room(bytes: Seq<u8>) -> nat
    decreases bytes.len(),
{
    if bytes.len() == 0 {
        0
    } else {
        room(bytes.drop_last()) + (if bytes.last() == 0 {
            3nat
        } else if bytes.last() == AMPERSAND {
            2
        } else {
            1
        })
    }
}

/// Whether the parser can keep all of a page in one buffer, however it cuts the page into texts.
pub open spec fn parsable(html: Seq<char>) -> bool {
    room(encode_utf8(html)) <= BUFFER_BYTES
}

proof fn lemma_room_grows(bytes: Seq<u8>, n: int)
    requires
        0 <= n <= bytes.len(),
    ensures
        room(bytes.take(n)) <= room(bytes),
    decreases bytes.len(),
{
    if n == bytes.len() {
        assert(bytes.take(n) =~= bytes);
    } else {
        lemma_room_grows(bytes.drop_last(), n);
        assert(bytes.drop_last().take(n) =~= bytes.take(n));
    }
}

/// Whether the parser can keep all of a page.
pub fn fits_parser(html: &str) -> (r: bool)
    ensures
        r == parsable(html@),
{
    let bytes: &[u8] = html.as_bytes();
    let mut taken: usize = 0;
    let mut i: usize = 0;
    while i < bytes.len()
        invariant
            i <= bytes@.len(),
            taken <= BUFFER_BYTES,
            taken == room(bytes@.take(i as int)),
            bytes@ == encode_utf8(html@),
        decreases bytes@.len() - i,
    {
        proof {
            assert(bytes@.take(i as int + 1).drop_last() =~= bytes@.take(i as int));
            lemma_room_grows(bytes@, i as int + 1);
        }
        let b: u8 = bytes[i];
        let more: usize = if b == 0 {
            3
        } else if b == AMPERSAND {
            2
        } else {
            1
        };
        if taken > BUFFER_BYTES - more {
            return false;
        }
        taken = taken + more;
        i = i + 1;
    }
    assert(bytes@.take(bytes@.len() as int) =~= bytes@);
    true
}

/// `scraper::Html::parse_document`: the document that the text holds. It panics where what it
/// keeps of a text outgrows its buffer, which a page that fits into one as a whole cannot make it
/// do. Of a larger page it is not said whether it can be parsed: that rests on how the parser cuts
/// it into texts.
#[verifier::external_body]
pub(crate) fn parse_document(html: &str) -> (r: scraper::Html)
    requires
        parsable(html@),
    ensures
        r == document(html@),
{
    scraper::Html::parse_document(html)
}

/// `scraper::Selector::parse`: the selector that the text denotes, `None` for its error.
#[verifier::external_body]
pub(crate) fn parse_selector(css: &str) -> (r: Option<scraper::Selector>)
    ensures
        r == selector(css@),
{
    scraper::Selector::parse(css).ok()
}

/// `scraper::Html::select`: every element of the page that the selector matches.
#[verifier::external_body]
pub(crate) fn select_all<'a>(page: &'a scraper::Html, wanted: &scraper::Selector) -> (r: Vec<
    scraper::ElementRef<'a>,
>)
    ensures
        r@ == all_matches(*page, *wanted),
{
    page.select(wanted).collect()
}

/// `scraper::ElementRef::select`: the first element below this one that the selector matches.
#[verifier::external_body]
pub(crate) fn select_first<'a>(
    element: &scraper::ElementRef<'a>,
    wanted: &scraper::Selector,
) -> (r: Option<scraper::ElementRef<'a>>)
    ensures
        r == first_match(*element, *wanted),
{
    element.select(wanted).next()
}

/// `scraper::node::Element::attr`: the value of the named attribute.
#[verifier::external_body]
pub(crate) fn read_attribute(element: &scraper::ElementRef, name: &str) -> (r: Option<String>)
    ensures
        match r {
            Some(v) => attribute(*element, name@) == Some(v@),
            None => attribute(*element, name@) is None,
        },
{
    element.value().attr(name).map(String::from)
}

/// `scraper::ElementRef::text`: the texts of the element, put together.
#[verifier::external_body]
pub(crate) fn read_text(element: &scraper::ElementRef) -> (r: String)
    ensures
        r@ == inner_text(*element),
{
    element.text().collect()
}

// ── Laws ────────────────────────────────────────────────────────────────────

/// A page takes up at least its bytes and at most three times as many, and exactly its bytes where
/// it has neither null characters nor references.
pub proof fn pages_take_up_their_bytes(bytes: Seq<u8>)
    ensures
        bytes.len() <= room(bytes) <= 3 * bytes.len(),
        (forall|i: int| 0 <= i < bytes.len() ==> #[trigger] bytes[i] != 0 && bytes[i] != 38)
            ==> room(bytes) == bytes.len(),
    decreases bytes.len(),
{
    if bytes.len() > 0 {
        pages_take_up_their_bytes(bytes.drop_last());
        if forall|i: int| 0 <= i < bytes.len() ==> #[trigger] bytes[i] != 0 && bytes[i] != 38 {
            assert forall|i: int| 0 <= i < bytes.len() - 1 implies #[trigger] bytes.drop_last()[i]
                != 0 && bytes.drop_last()[i] != 38 by {
                assert(bytes[i] == bytes.drop_last()[i]);
            }
            assert(bytes[bytes.len() - 1] != 0);
        }
    }
}

/// A null character takes up three bytes, the start of a reference two, and any other byte one.
pub proof fn each_byte_takes_up_its_room(bytes: Seq<u8>, b: u8)
    ensures
        room(bytes.push(b)) == room(bytes) + (if b == 0 {
            3int
        } else if b == 38 {
            2
        } else {
            1
        }),
{
    assert(bytes.push(b).drop_last() =~= bytes);
}

/// A page is parsed where three times its bytes are at most two gigabytes, and so is one without
/// null characters and references that has that many; a longer one never is.
pub proof fn ordinary_pages_are_parsed(html: Seq<char>)
    ensures
        3 * encode_utf8(html).len() <= 2_147_483_648 ==> parsable(html),
        encode_utf8(html).len() <= 2_147_483_648 && (forall|i: int|
            0 <= i < encode_utf8(html).len() ==> #[trigger] encode_utf8(html)[i] != 0
                && encode_utf8(html)[i] != 38) ==> parsable(html),
        encode_utf8(html).len() > 2_147_483_648 ==> !parsable(html),
{
    pages_take_up_their_bytes(encode_utf8(html));
}

} // verus!

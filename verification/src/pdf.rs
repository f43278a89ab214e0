use vstd::prelude::*;
use vstd::string::*;
use vstd::utf8::*;

verus! {

/// The four bytes `%PDF` that open every PDF file.
pub open spec fn pdf_magic() -> Seq<u8> {
    seq![37u8, 80u8, 68u8, 70u8]
}

/// The characters `%PDF-` that open the header line of a PDF file.
pub open spec fn pdf_header_prefix() -> Seq<char> {
    seq!['%', 'P', 'D', 'F', '-']
}

/// A byte that ends a line: line feed or carriage return.
pub open spec fn is_line_break(b: u8) -> bool {
    b == 10u8 || b == 13u8
}

/// The bytes before the first line break (all of them when there is none).
pub open spec fn first_line(bytes: Seq<u8>) -> Seq<u8>
    decreases bytes.len(),
{
    if bytes.len() == 0 {
        bytes
    } else if is_line_break(bytes[0]) {
        Seq::empty()
    } else {
        seq![bytes[0]] + first_line(bytes.drop_first())
    }
}

/// What follows `%PDF-` on the first line, when that line is UTF-8 text
/// that starts with it.
pub open spec fn spec_pdf_version(bytes: Seq<u8>) -> Option<Seq<char>> {
    let line = first_line(bytes);
    if valid_utf8(line) && decode_utf8(line).len() >= 5 && decode_utf8(line).take(5)
        == pdf_header_prefix() {
        Some(decode_utf8(line).skip(5))
    } else {
        None
    }
}

/// Why a PDF could not be opened, inspected or rewritten.
#[derive(Debug, Clone, Copy, PartialEq, Eq, Structural)]
pub enum PdfError {
    Mupdf,
}

/// The content found on one page: characters of text (surrounding
/// whitespace excluded), images and vector drawings.
#[derive(Debug, Clone, Copy, PartialEq, Eq)]
pub struct PageContentFact {
    pub page: u32,
    pub text_chars: usize,
    pub image_count: usize,
    pub drawing_count: usize,
}

/// A page is blank when it carries no text, no image and no drawing.
pub open spec fn spec_is_blank(content: PageContentFact) -> bool {
    content.text_chars == 0 && content.image_count == 0 && content.drawing_count == 0
}

/// Whether the upload starts with the PDF magic bytes.
pub fn has_pdf_magic(bytes: &[u8]) -> (res: bool)
    ensures
        res == (bytes@.len() >= 4 && bytes@.take(4) == pdf_magic()),
{
    if bytes.len() < 4 {
        return false;
    }
    let res = bytes[0] == 37u8 && bytes[1] == 80u8 && bytes[2] == 68u8 && bytes[3] == 70u8;
    assert(res == (bytes@.take(4) =~= pdf_magic()));
    res
}

/// The index of the first line break, or the length when there is none.
fn first_line_end(bytes: &[u8]) -> (end: usize)
    ensures
        end <= bytes@.len(),
        first_line(bytes@) == bytes@.take(end as int),
{
    let mut i: usize = 0;
    while i < bytes.len() && bytes[i] != 10u8 && bytes[i] != 13u8
        invariant
            i <= bytes@.len(),
            forall|j: int| 0 <= j < i ==> !is_line_break(#[trigger] bytes@[j]),
        decreases bytes.len() - i,
    {
        i = i + 1;
    }
    proof {
        lemma_first_line(bytes@, i as int);
    }
    i
}

pub(crate) proof fn lemma_first_line(bytes: Seq<u8>, end: int)
    requires
        0 <= end <= bytes.len(),
        forall|j: int| 0 <= j < end ==> !is_line_break(#[trigger] bytes[j]),
        end < bytes.len() ==> is_line_break(bytes[end]),
    ensures
        first_line(bytes) == bytes.take(end),
    decreases bytes.len(),
{
    if bytes.len() == 0 {
        assert(bytes.take(end) =~= bytes);
    } else if end == 0 {
        assert(bytes.take(0) =~= Seq::<u8>::empty());
    } else {
        let rest = bytes.drop_first();
        assert forall|j: int| 0 <= j < end - 1 implies !is_line_break(#[trigger] rest[j]) by {
            assert(rest[j] == bytes[j + 1]);
        }
        lemma_first_line(rest, end - 1);
        assert(bytes.take(end) =~= seq![bytes[0]] + rest.take(end - 1));
    }
}

/// The first line is a prefix of the bytes and holds no line break.
pub(crate) proof fn lemma_first_line_prefix(bytes: Seq<u8>)
    ensures
        first_line(bytes).len() <= bytes.len(),
        bytes.take(first_line(bytes).len() as int) == first_line(bytes),
        forall|j: int|
            0 <= j < first_line(bytes).len() ==> !is_line_break(#[trigger] first_line(bytes)[j]),
    decreases bytes.len(),
{
    if bytes.len() == 0 {
        assert(bytes.take(0) =~= bytes);
    } else if is_line_break(bytes[0]) {
        assert(bytes.take(0) =~= first_line(bytes));
    } else {
        let rest = bytes.drop_first();
        lemma_first_line_prefix(rest);
        let fl = first_line(rest);
        let line = first_line(bytes);
        assert(line == seq![bytes[0]] + fl);
        assert(bytes.take(fl.len() + 1int) =~= seq![bytes[0]] + rest.take(fl.len() as int));
        assert forall|j: int| 0 <= j < line.len() implies !is_line_break(#[trigger] line[j]) by {
            if j > 0 {
                assert(line[j] == fl[j - 1]);
            }
        }
    }
}

/// Encoding a concatenation concatenates the encodings.
pub(crate) proof fn lemma_encode_concat(a: Seq<char>, b: Seq<char>)
    ensures
        encode_utf8(a + b) == encode_utf8(a) + encode_utf8(b),
    decreases a.len(),
{
    if a.len() == 0 {
        assert(a + b =~= b);
        assert(encode_utf8(a) + encode_utf8(b) =~= encode_utf8(b));
    } else {
        assert((a + b).drop_first() =~= a.drop_first() + b);
        assert((a + b)[0] == a[0]);
        lemma_encode_concat(a.drop_first(), b);
        assert(encode_utf8(a + b) =~= encode_utf8(a) + encode_utf8(b));
    }
}

/// An ASCII character of a sequence is encoded as its own byte, right after
/// the encoding of the characters before it.
pub(crate) proof fn lemma_ascii_char_encoded(chars: Seq<char>, i: int)
    requires
        0 <= i < chars.len(),
        '\0' <= chars[i] <= '\u{7f}',
    ensures
        encode_utf8(chars.take(i)).len() < encode_utf8(chars).len(),
        encode_utf8(chars)[encode_utf8(chars.take(i)).len() as int] == chars[i] as u8,
{
    let c = seq![chars[i]];
    let after = chars.skip(i + 1);
    assert(chars =~= chars.take(i) + (c + after));
    lemma_encode_concat(chars.take(i), c + after);
    lemma_encode_concat(c, after);
    assert(is_ascii_chars(c));
    is_ascii_chars_encode_utf8(c);
}

/// A character other than a line feed or carriage return encodes to bytes
/// none of which ends a line.
proof fn lemma_scalar_no_break(c: char)
    requires
        c != '\n',
        c != '\r',
    ensures
        forall|j: int|
            0 <= j < encode_scalar(c as u32).len() ==> !is_line_break(
                #[trigger] encode_scalar(c as u32)[j],
            ),
{
    let v = c as u32;
    assert(v != 10u32 && v != 13u32);
    let e = encode_scalar(v);
    if has_width_1_encoding(v) {
        assert(leading_byte_width_1(v) != 10u8 && leading_byte_width_1(v) != 13u8) by (bit_vector)
            requires
                v <= 0x7Fu32,
                v != 10u32,
                v != 13u32,
        ;
    } else {
        assert(leading_byte_width_2(v) >= 0x80u8) by (bit_vector);
        assert(leading_byte_width_3(v) >= 0x80u8) by (bit_vector);
        assert(leading_byte_width_4(v) >= 0x80u8) by (bit_vector);
        assert(last_continuation_byte(v) >= 0x80u8) by (bit_vector);
        assert(second_last_continuation_byte(v) >= 0x80u8) by (bit_vector);
        assert(third_last_continuation_byte(v) >= 0x80u8) by (bit_vector);
    }
}

/// Text without line feeds or carriage returns encodes to bytes none of
/// which ends a line.
pub(crate) proof fn lemma_encode_no_break(chars: Seq<char>)
    requires
        !chars.contains('\n'),
        !chars.contains('\r'),
    ensures
        forall|j: int|
            0 <= j < encode_utf8(chars).len() ==> !is_line_break(#[trigger] encode_utf8(chars)[j]),
    decreases chars.len(),
{
    if chars.len() > 0 {
        let rest = chars.drop_first();
        assert(chars[0] != '\n' && chars[0] != '\r');
        if rest.contains('\n') || rest.contains('\r') {
            let q = choose|q: int| 0 <= q < rest.len() && (rest[q] == '\n' || rest[q] == '\r');
            assert(chars[q + 1] == rest[q]);
        }
        lemma_scalar_no_break(chars[0]);
        lemma_encode_no_break(rest);
        let head = encode_scalar(chars[0] as u32);
        let tail = encode_utf8(rest);
        assert(encode_utf8(chars) == head + tail);
        assert forall|j: int| 0 <= j < encode_utf8(chars).len() implies !is_line_break(
            #[trigger] encode_utf8(chars)[j],
        ) by {
            if j < head.len() {
                assert(encode_utf8(chars)[j] == head[j]);
            } else {
                assert(encode_utf8(chars)[j] == tail[j - head.len()]);
            }
        }
    }
}

/// `std::str::from_utf8`: `Ok` exactly for valid UTF-8, holding the
/// decoded characters.
#[verifier::external_body]
fn utf8_str(bytes: &[u8]) -> (res: Option<&str>)
    ensures
        res is Some <==> valid_utf8(bytes@),
        res matches Some(s) ==> s@ == decode_utf8(bytes@),
{
    std::str::from_utf8(bytes).ok()
}

/// The version that the header line `%PDF-x.y` announces.
pub fn pdf_version(bytes: &[u8]) -> (res: Option<String>)
    ensures
        res matches Some(s) ==> spec_pdf_version(bytes@) == Some(s@),
        res is None ==> spec_pdf_version(bytes@) is None,
{
    let end = first_line_end(bytes);
    let line = &bytes[0..end];
    assert(line@ == first_line(bytes@));
    match utf8_str(line) {
        None => None,
        Some(text) => {
            let n = text.unicode_len();
            if n < 5 {
                return None;
            }
            let c0 = text.get_char(0);
            let c1 = text.get_char(1);
            let c2 = text.get_char(2);
            let c3 = text.get_char(3);
            let c4 = text.get_char(4);
            if c0 == '%' && c1 == 'P' && c2 == 'D' && c3 == 'F' && c4 == '-' {
                assert(text@.take(5) =~= pdf_header_prefix());
                let rest = text.substring_char(5, n);
                assert(rest@ =~= text@.skip(5));
                Some(rest.to_owned())
            } else {
                assert(text@.take(5) != pdf_header_prefix()) by {
                    if text@.take(5) == pdf_header_prefix() {
                        assert(text@.take(5)[0] == '%');
                        assert(text@.take(5)[1] == 'P');
                        assert(text@.take(5)[2] == 'D');
                        assert(text@.take(5)[3] == 'F');
                        assert(text@.take(5)[4] == '-');
                    }
                }
                None
            }
        },
    }
}

/// Whether a page carries no text, no image and no vector drawing.
pub fn is_blank_page(content: &PageContentFact) -> (res: bool)
    ensures
        res == spec_is_blank(*content),
{
    content.text_chars == 0 && content.image_count == 0 && content.drawing_count == 0
}

} // verus!

verus! {

/// What opening a PDF found: whether it could be read, whether it is
/// encrypted or forbids printing, how many pages it has (unknown while
/// encrypted) and the facts of each page, of type `P`.
#[derive(Debug)]
pub struct PdfInspection<P> {
    pub readable: bool,
    pub encrypted: bool,
    pub printing_disallowed: bool,
    pub page_count: Option<u32>,
    pub pages: Vec<P>,
}

} // verus!

verus! {

/// The SHA-256 digest of `data`, as `sha2::Sha256` computes it.
pub uninterp spec fn sha256(data: Seq<u8>) -> Seq<u8>;

/// `sha2::Sha256::digest`: the digest of `bytes`, 32 bytes long.
#[verifier::external_body]
fn sha256_digest(bytes: &[u8]) -> (digest: Vec<u8>)
    ensures
        digest@ == sha256(bytes@),
        digest@.len() == 32,
{
    <sha2::Sha256 as sha2::Digest>::digest(bytes).to_vec()
}

/// The lower-case hexadecimal digit for a value below 16.
pub open spec fn hex_digit(n: u8) -> char {
    if n < 10 {
        (48 + n) as char
    } else {
        (87 + n) as char
    }
}

/// Two lower-case hexadecimal digits per byte, high half first.
pub open spec fn hex_lower(bytes: Seq<u8>) -> Seq<char>
    decreases bytes.len(),
{
    if bytes.len() == 0 {
        Seq::empty()
    } else {
        hex_lower(bytes.drop_last()).push(hex_digit(bytes.last() / 16)).push(
            hex_digit(bytes.last() % 16),
        )
    }
}

fn hex_char(n: u8) -> (c: char)
    requires
        n < 16,
    ensures
        c == hex_digit(n),
{
    if n < 10 {
        (48u8 + n) as char
    } else {
        (87u8 + n) as char
    }
}

/// The SHA-256 digest of `bytes` in lower-case hexadecimal.
pub fn sha256_hex(bytes: &[u8]) -> (hex: String)
    ensures
        hex@ == hex_lower(sha256(bytes@)),
        hex@.len() == 64,
{
    let digest = sha256_digest(bytes);
    let mut chars: Vec<char> = Vec::new();
    let mut i: usize = 0;
    while i < digest.len()
        invariant
            i <= digest@.len(),
            chars@ == hex_lower(digest@.take(i as int)),
            chars@.len() == 2 * i,
        decreases digest.len() - i,
    {
        assert(digest@.take(i + 1).drop_last() =~= digest@.take(i as int));
        let b = digest[i];
        chars.push(hex_char(b / 16));
        chars.push(hex_char(b % 16));
        i = i + 1;
    }
    assert(digest@.take(i as int) =~= digest@);
    assert(chars@.subrange(0, chars@.len() as int) =~= chars@);
    crate::text::string_from_range(&chars, 0, chars.len())
}

/// Size, digest and announced version of `bytes`.
pub fn file_info(bytes: &[u8]) -> (info: crate::models::FileInfo)
    ensures
        info.bytes == bytes@.len(),
        info.sha256@ == hex_lower(sha256(bytes@)),
        match info.pdf_version {
            Some(v) => spec_pdf_version(bytes@) == Some(v@),
            None => spec_pdf_version(bytes@) is None,
        },
{
    crate::models::FileInfo {
        bytes: bytes.len() as u64,
        sha256: sha256_hex(bytes),
        pdf_version: pdf_version(bytes),
    }
}

} // verus!

verus! {

/// The content facts of a page: the characters of its text once trimmed,
/// the larger of its image resources and placed images, and its drawings.
pub fn page_content_fact(
    page: u32,
    text: &str,
    image_resources: usize,
    placed_images: usize,
    drawing_count: usize,
) -> (fact: PageContentFact)
    ensures
        fact.page == page,
        fact.text_chars == crate::text::trim(text@).len(),
        fact.image_count == (if image_resources >= placed_images {
            image_resources
        } else {
            placed_images
        }),
        fact.drawing_count == drawing_count,
{
    let trimmed = crate::text::trimmed(text);
    PageContentFact {
        page,
        text_chars: trimmed.len(),
        image_count: if image_resources >= placed_images {
            image_resources
        } else {
            placed_images
        },
        drawing_count,
    }
}

/// The page total reported by the PDF library, negative counts read as 0.
pub open spec fn page_total(raw: i32) -> u32 {
    if raw < 0 {
        0
    } else {
        raw as u32
    }
}

/// What opening a document without reading its pages found: it is readable;
/// the page total is known only when it is not encrypted (`page_count` is
/// what the library reported, read only then).
pub fn metadata_inspection<P>(encrypted: bool, printing_disallowed: bool, page_count: Option<i32>) -> (
    inspection: PdfInspection<P>)
    ensures
        inspection.readable,
        inspection.encrypted == encrypted,
        inspection.printing_disallowed == printing_disallowed,
        inspection.page_count == (if encrypted {
            None
        } else {
            match page_count {
                Some(n) => Some(page_total(n)),
                None => None,
            }
        }),
        inspection.pages@.len() == 0,
{
    let count = if encrypted {
        None
    } else {
        match page_count {
            Some(n) => Some(
                if n < 0 {
                    0u32
                } else {
                    n as u32
                },
            ),
            None => None,
        }
    };
    PdfInspection {
        readable: true,
        encrypted,
        printing_disallowed,
        page_count: count,
        pages: Vec::new(),
    }
}

} // verus!

use vstd::prelude::*;

use crate::error::{ConversionError, StreamField};
use crate::page::{pixel_bytes, PageData, PageModel};

verus! {

/// Bytes taken by each big-endian integer of the stream.
pub const INT_BYTES: usize = 2;

/// The value of the big-endian `u16` that starts at `pos`.
pub open spec fn be16_at(data: Seq<u8>, pos: int) -> u16 {
    ((data[pos] as nat) * 256 + (data[pos + 1int] as nat)) as u16
}

/// The two big-endian bytes of `v`.
pub open spec fn be16_bytes(v: u16) -> Seq<u8> {
    seq![(v / 256) as u8, (v % 256) as u8]
}

pub open spec fn truncated(field: StreamField, expected: nat, available: nat) -> ConversionError {
    ConversionError::TruncatedStream { field, expected: expected as u64, available: available as u64 }
}

/// Pages `index .. count` of a stream whose next page record starts at `pos`.
pub open spec fn decode_pages(data: Seq<u8>, pos: nat, index: nat, count: nat) -> Result<
    Seq<PageModel>,
    ConversionError,
>
    decreases count - index,
{
    if index >= count {
        Ok(Seq::empty())
    } else if pos + 2 > data.len() {
        Err(truncated(StreamField::Width(index as u16), 2, (data.len() - pos) as nat))
    } else if pos + 4 > data.len() {
        Err(truncated(StreamField::Height(index as u16), 2, (data.len() - pos - 2) as nat))
    } else {
        let width = be16_at(data, pos as int);
        let height = be16_at(data, pos + 2int);
        let n = pixel_bytes(width, height);
        if pos + 4 + n > data.len() {
            Err(truncated(StreamField::Pixels(index as u16), n, (data.len() - pos - 4) as nat))
        } else {
            let page = PageModel {
                width,
                height,
                pixels: data.subrange(pos + 4int, pos + 4int + n),
            };
            match decode_pages(data, pos + 4 + n, index + 1, count) {
                Ok(rest) => Ok(seq![page] + rest),
                Err(e) => Err(e),
            }
        }
    }
}

/// The pages that a whole pixel stream declares. Bytes after the last page
/// are not read.
pub open spec fn decode_stream(data: Seq<u8>) -> Result<Seq<PageModel>, ConversionError> {
    if data.len() < 2 {
        Err(truncated(StreamField::PageCount, 2, data.len()))
    } else {
        decode_pages(data, 2, 0, be16_at(data, 0) as nat)
    }
}

/// One page record: width, height, then the samples.
pub open spec fn encode_page(page: PageModel) -> Seq<u8> {
    be16_bytes(page.width) + be16_bytes(page.height) + page.pixels
}

/// The page records of `pages`, one after another.
pub open spec fn encode_pages(pages: Seq<PageModel>) -> Seq<u8>
    decreases pages.len(),
{
    if pages.len() == 0 {
        Seq::empty()
    } else {
        encode_page(pages[0]) + encode_pages(pages.drop_first())
    }
}

/// The pixel stream that a renderer emits for `pages`.
pub open spec fn encode_stream(pages: Seq<PageModel>) -> Seq<u8> {
    be16_bytes(pages.len() as u16) + encode_pages(pages)
}

pub open spec fn models(pages: Seq<PageData>) -> Seq<PageModel> {
    pages.map_values(|p: PageData| p@)
}

pub open spec fn prepend(
    done: Seq<PageModel>,
    rest: Result<Seq<PageModel>, ConversionError>,
) -> Result<Seq<PageModel>, ConversionError> {
    match rest {
        Ok(r) => Ok(done + r),
        Err(e) => Err(e),
    }
}

pub open spec fn all_wf(pages: Seq<PageModel>) -> bool {
    forall|i: int| 0 <= i < pages.len() ==> (#[trigger] pages[i]).wf()
}

proof fn lemma_be16_round_trip(v: u16)
    ensures
        be16_at(be16_bytes(v), 0) == v,
{
}

proof fn lemma_encode_pages_push(pages: Seq<PageModel>, page: PageModel)
    ensures
        encode_pages(pages.push(page)) == encode_pages(pages) + encode_page(page),
    decreases pages.len(),
{
    let pushed = pages.push(page);
    if pages.len() == 0 {
        assert(pushed[0] == page);
        assert(pushed.drop_first() =~= Seq::<PageModel>::empty());
        assert(encode_pages(pushed.drop_first()) == Seq::<u8>::empty());
        assert(encode_pages(pushed) =~= encode_page(page));
    } else {
        assert(pushed[0] == pages[0]);
        assert(pushed.drop_first() =~= pages.drop_first().push(page));
        lemma_encode_pages_push(pages.drop_first(), page);
        assert(encode_pages(pushed) =~= encode_pages(pages) + encode_page(page));
    }
}

/// The first record of a non-empty sequence of pages, split into its parts.
proof fn lemma_encode_pages_first(pages: Seq<PageModel>)
    requires
        pages.len() > 0,
        pages[0].wf(),
    ensures
        ({
            let enc = encode_pages(pages);
            let page = pages[0];
            let n = pixel_bytes(page.width, page.height) as int;
            let rest = encode_pages(pages.drop_first());
            &&& enc.len() == 4 + n + rest.len()
            &&& enc[0] == be16_bytes(page.width)[0]
            &&& enc[1] == be16_bytes(page.width)[1]
            &&& enc[2] == be16_bytes(page.height)[0]
            &&& enc[3] == be16_bytes(page.height)[1]
            &&& forall|i: int| 0 <= i < n ==> enc[4 + i] == page.pixels[i]
            &&& forall|i: int| 0 <= i < rest.len() ==> enc[4 + n + i] == rest[i]
        }),
{
    let page = pages[0];
    let rest = encode_pages(pages.drop_first());
    assert(encode_pages(pages) == encode_page(page) + rest);
    assert(encode_page(page) =~= seq![
        be16_bytes(page.width)[0],
        be16_bytes(page.width)[1],
        be16_bytes(page.height)[0],
        be16_bytes(page.height)[1],
    ] + page.pixels);
}

proof fn lemma_all_wf_rest(pages: Seq<PageModel>)
    requires
        pages.len() > 0,
        all_wf(pages),
    ensures
        all_wf(pages.drop_first()),
        pages[0].wf(),
{
    assert forall|i: int| 0 <= i < pages.drop_first().len() implies (
    #[trigger] pages.drop_first()[i]).wf() by {
        assert(pages.drop_first()[i] == pages[i + 1]);
    }
}

/// The bytes from `pos` on start with the records of `pages`, or with the first
/// `avail` bytes of them where the data ends before the records do.
pub open spec fn holds_records_at(data: Seq<u8>, pos: int, pages: Seq<PageModel>) -> bool {
    let enc = encode_pages(pages);
    &&& 0 <= pos <= data.len()
    &&& forall|i: int| 0 <= i < enc.len() && pos + i < data.len() ==> data[pos + i] == enc[i]
}

proof fn lemma_records_rest(data: Seq<u8>, pos: int, pages: Seq<PageModel>)
    requires
        pages.len() > 0,
        pages[0].wf(),
        holds_records_at(data, pos, pages),
        pos + 4 + pixel_bytes(pages[0].width, pages[0].height) <= data.len(),
    ensures
        holds_records_at(
            data,
            pos + 4 + pixel_bytes(pages[0].width, pages[0].height),
            pages.drop_first(),
        ),
{
    let enc = encode_pages(pages);
    let n = pixel_bytes(pages[0].width, pages[0].height) as int;
    let rest = encode_pages(pages.drop_first());
    lemma_encode_pages_first(pages);
    assert forall|i: int| 0 <= i < rest.len() && pos + 4 + n + i < data.len() implies data[pos + 4
        + n + i] == rest[i] by {
        assert(data[pos + (4 + n + i)] == enc[4 + n + i]);
    }
}

proof fn lemma_records_header(data: Seq<u8>, pos: int, pages: Seq<PageModel>)
    requires
        pages.len() > 0,
        pages[0].wf(),
        holds_records_at(data, pos, pages),
        pos + 4 <= data.len(),
    ensures
        be16_at(data, pos) == pages[0].width,
        be16_at(data, pos + 2) == pages[0].height,
        pos + 4 + pixel_bytes(pages[0].width, pages[0].height) <= data.len() ==> data.subrange(
            pos + 4,
            pos + 4 + pixel_bytes(pages[0].width, pages[0].height),
        ) == pages[0].pixels,
{
    let enc = encode_pages(pages);
    let page = pages[0];
    let n = pixel_bytes(page.width, page.height) as int;
    lemma_encode_pages_first(pages);
    assert(data[pos + 0] == enc[0]);
    assert(data[pos + 1] == enc[1]);
    assert(data[pos + 2] == enc[2]);
    assert(data[pos + 3] == enc[3]);
    lemma_be16_round_trip(page.width);
    lemma_be16_round_trip(page.height);
    if pos + 4 + n <= data.len() {
        assert forall|i: int| 0 <= i < n implies data.subrange(pos + 4, pos + 4 + n)[i]
            == page.pixels[i] by {
            assert(data[pos + (4 + i)] == enc[4 + i]);
        }
        assert(data.subrange(pos + 4, pos + 4 + n) =~= page.pixels);
    }
}

/// Where the bytes at `pos` are the records of `pages`, decoding reads
/// exactly those pages back.
proof fn lemma_decode_encoded_pages(data: Seq<u8>, pos: nat, index: nat, count: nat, pages: Seq<PageModel>)
    requires
        all_wf(pages),
        count == index + pages.len(),
        pos + encode_pages(pages).len() <= data.len(),
        holds_records_at(data, pos as int, pages),
    ensures
        decode_pages(data, pos, index, count) == Ok::<_, ConversionError>(pages),
    decreases pages.len(),
{
    if pages.len() == 0 {
        assert(pages =~= Seq::<PageModel>::empty());
    } else {
        let page = pages[0];
        let rest = pages.drop_first();
        lemma_all_wf_rest(pages);
        lemma_encode_pages_first(pages);
        lemma_records_header(data, pos as int, pages);
        lemma_records_rest(data, pos as int, pages);
        let next = (pos + 4 + pixel_bytes(page.width, page.height)) as nat;
        lemma_decode_encoded_pages(data, next, index + 1, count, rest);
        assert(seq![page] + rest =~= pages);
    }
}

/// Where the data ends inside the records of `pages` that start at `pos`,
/// decoding fails with a truncated stream.
proof fn lemma_decode_cut_pages(data: Seq<u8>, pos: nat, index: nat, count: nat, pages: Seq<PageModel>)
    requires
        all_wf(pages),
        count == index + pages.len(),
        count <= 65535,
        data.len() < pos + encode_pages(pages).len(),
        holds_records_at(data, pos as int, pages),
    ensures
        decode_pages(data, pos, index, count) matches Err(ConversionError::TruncatedStream { .. }),
    decreases pages.len(),
{
    if pages.len() > 0 {
        let page = pages[0];
        let rest = pages.drop_first();
        lemma_all_wf_rest(pages);
        lemma_encode_pages_first(pages);
        if pos + 4 <= data.len() {
            lemma_records_header(data, pos as int, pages);
            let next = (pos + 4 + pixel_bytes(page.width, page.height)) as nat;
            if next <= data.len() {
                lemma_records_rest(data, pos as int, pages);
                lemma_decode_cut_pages(data, next, index + 1, count, rest);
            }
        }
    }
}

/// Decoding the stream that encodes a sequence of well-formed pages gives
/// back those pages, with their sizes and samples unchanged.
pub proof fn lemma_round_trip(pages: Seq<PageModel>)
    requires
        pages.len() <= 65535,
        all_wf(pages),
    ensures
        decode_stream(encode_stream(pages)) == Ok::<_, ConversionError>(pages),
{
    let data = encode_stream(pages);
    let enc = encode_pages(pages);
    lemma_be16_round_trip(pages.len() as u16);
    assert(data[0] == be16_bytes(pages.len() as u16)[0]);
    assert(data[1] == be16_bytes(pages.len() as u16)[1]);
    assert(holds_records_at(data, 2, pages)) by {
        assert forall|i: int| 0 <= i < enc.len() && 2 + i < data.len() implies data[2 + i] == enc[i] by {}
    }
    lemma_decode_encoded_pages(data, 2, 0, pages.len(), pages);
}

/// Decoding any strict prefix of the stream that encodes a sequence of
/// well-formed pages fails with a truncated stream.
pub proof fn lemma_truncated_prefix(pages: Seq<PageModel>, cut: nat)
    requires
        pages.len() <= 65535,
        all_wf(pages),
        cut < encode_stream(pages).len(),
    ensures
        decode_stream(encode_stream(pages).take(cut as int)) matches Err(
            ConversionError::TruncatedStream { .. },
        ),
{
    let full = encode_stream(pages);
    let data = full.take(cut as int);
    let enc = encode_pages(pages);
    if cut >= 2 {
        lemma_be16_round_trip(pages.len() as u16);
        assert(data[0] == be16_bytes(pages.len() as u16)[0]);
        assert(data[1] == be16_bytes(pages.len() as u16)[1]);
        assert(holds_records_at(data, 2, pages)) by {
            assert forall|i: int| 0 <= i < enc.len() && 2 + i < data.len() implies data[2 + i]
                == enc[i] by {
                assert(data[2 + i] == full[2 + i]);
            }
        }
        lemma_decode_cut_pages(data, 2, 0, pages.len(), pages);
    }
}

/// Reads a big-endian `u16` from the first two bytes of `data`.
pub fn read_u16_be(data: &[u8]) -> (r: Option<u16>)
    ensures
        data@.len() < 2 <==> r is None,
        r matches Some(v) ==> v == be16_at(data@, 0),
{
    if data.len() < INT_BYTES {
        return None;
    }
    let hi = data[0] as u16;
    let lo = data[1] as u16;
    Some(hi * 256 + lo)
}

/// Decodes a pixel stream: a big-endian `u16` page count, then for each page
/// a `u16` width, a `u16` height and `width * height * 3` RGB bytes.
pub fn parse_pixel_data(data: Vec<u8>) -> (r: Result<Vec<PageData>, ConversionError>)
    ensures
        r matches Ok(pages) ==> decode_stream(data@) == Ok::<_, ConversionError>(models(pages@)),
        r matches Ok(pages) ==> forall|i: int| 0 <= i < pages@.len() ==> (#[trigger] pages@[i]).wf(),
        r matches Err(e) ==> decode_stream(data@) == Err::<Seq<PageModel>, _>(e),
{
    let d = data.as_slice();
    let len = d.len();
    if len < INT_BYTES {
        return Err(
            ConversionError::TruncatedStream {
                field: StreamField::PageCount,
                expected: 2,
                available: len as u64,
            },
        );
    }
    let page_count = read_u16_be(&d[0..INT_BYTES]).unwrap();
    let mut pos: usize = INT_BYTES;
    let mut pages: Vec<PageData> = Vec::new();
    let mut index: u16 = 0;
    while index < page_count
        invariant
            d@ == data@,
            len == d@.len(),
            2 <= pos <= len,
            index <= page_count,
            page_count == be16_at(data@, 0),
            decode_stream(data@) == prepend(
                models(pages@),
                decode_pages(data@, pos as nat, index as nat, page_count as nat),
            ),
            forall|i: int| 0 <= i < pages@.len() ==> (#[trigger] pages@[i]).wf(),
        decreases page_count - index,
    {
        if len - pos < INT_BYTES {
            return Err(
                ConversionError::TruncatedStream {
                    field: StreamField::Width(index),
                    expected: 2,
                    available: (len - pos) as u64,
                },
            );
        }
        let width = read_u16_be(&d[pos..pos + INT_BYTES]).unwrap();
        if len - pos - INT_BYTES < INT_BYTES {
            return Err(
                ConversionError::TruncatedStream {
                    field: StreamField::Height(index),
                    expected: 2,
                    available: (len - pos - INT_BYTES) as u64,
                },
            );
        }
        let height = read_u16_be(&d[pos + INT_BYTES..pos + 2 * INT_BYTES]).unwrap();
        let start = pos + 2 * INT_BYTES;
        proof {
            assert((width as nat) * (height as nat) <= 65535 * 65535) by (nonlinear_arith)
                requires
                    width <= 65535,
                    height <= 65535,
            ;
        }
        let num_bytes: u64 = (width as u64) * (height as u64) * 3;
        if num_bytes > (len - start) as u64 {
            return Err(
                ConversionError::TruncatedStream {
                    field: StreamField::Pixels(index),
                    expected: num_bytes,
                    available: (len - start) as u64,
                },
            );
        }
        let end = start + num_bytes as usize;
        let pixels = vstd::slice::slice_to_vec(&d[start..end]);
        let page = PageData { width, height, pixels };
        proof {
            let ghost done = models(pages@);
            let ghost rest = decode_pages(data@, end as nat, index as nat + 1, page_count as nat);
            assert(page@.pixels =~= data@.subrange(start as int, end as int));
            assert(models(pages@.push(page)) =~= done.push(page@));
            match rest {
                Ok(r) => {
                    assert(done + (seq![page@] + r) =~= done.push(page@) + r);
                },
                Err(e) => {},
            }
        }
        pages.push(page);
        pos = end;
        index = index + 1;
    }
    proof {
        assert(models(pages@) + Seq::<PageModel>::empty() =~= models(pages@));
    }
    Ok(pages)
}

/// Encodes pages as the pixel stream that the renderer emits.
pub fn encode_pixel_stream(pages: &[PageData]) -> (r: Vec<u8>)
    requires
        pages@.len() <= 65535,
    ensures
        r@ == encode_stream(models(pages@)),
{
    let count = pages.len() as u16;
    let mut out: Vec<u8> = Vec::new();
    out.push((count / 256) as u8);
    out.push((count % 256) as u8);
    let mut i: usize = 0;
    while i < pages.len()
        invariant
            count == pages@.len(),
            i <= pages@.len(),
            out@ == be16_bytes(count) + encode_pages(models(pages@).take(i as int)),
        decreases pages@.len() - i,
    {
        let page = &pages[i];
        proof {
            lemma_encode_pages_push(models(pages@).take(i as int), page@);
            assert(models(pages@).take(i as int).push(page@) =~= models(pages@).take(i + 1));
        }
        let ghost before = out@;
        out.push((page.width / 256) as u8);
        out.push((page.width % 256) as u8);
        out.push((page.height / 256) as u8);
        out.push((page.height % 256) as u8);
        out.extend_from_slice(page.pixels.as_slice());
        assert(out@ =~= before + encode_page(page@));
        i = i + 1;
    }
    assert(models(pages@).take(pages@.len() as int) =~= models(pages@));
    out
}

} // verus!

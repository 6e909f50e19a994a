use vstd::prelude::*;

use crate::decimal::{decimal, fixed2, push_decimal, push_fixed2, push_zero_padded, zero_padded};
use crate::error::ConversionError;
use crate::page::{PageData, PageModel};
use crate::wire::models;
use vstd::string::StringSliceAdditionalSpecFns;

verus! {

/// Resolution at which the renderer samples a page, in pixels per inch.
pub const DPI: u64 = 150;

/// Most indirect objects that a document of at most 65535 pages needs.
pub const MAX_OBJECTS: usize = 196607;

/// The bytes of a text literal.
pub open spec fn text(s: &str) -> Seq<u8> {
    s.spec_bytes()
}

/// Appends the bytes of `s`.
fn put(out: &mut Vec<u8>, s: &str)
    ensures
        final(out)@ == old(out)@ + text(s),
{
    out.extend_from_slice(s.as_bytes());
    assert(out@ =~= old(out)@ + text(s));
}

/// The bytes of `parts`, one part after another.
pub open spec fn concat(parts: Seq<Seq<u8>>) -> Seq<u8>
    decreases parts.len(),
{
    if parts.len() == 0 {
        Seq::empty()
    } else {
        concat(parts.drop_last()) + parts.last()
    }
}

/// The file header: the version line and a comment line of four high-bit
/// bytes, which marks the file as binary.
pub open spec fn file_header() -> Seq<u8> {
    text("%PDF-1.4\n") + seq![37u8, 0xE2u8, 0xE3u8, 0xCFu8, 0xD3u8, 10u8]
}

/// The line that opens indirect object `number`.
pub open spec fn object_header(number: nat) -> Seq<u8> {
    decimal(number) + text(" 0 obj\n")
}

/// Where each object of `objects` starts in a file that begins with the header.
pub open spec fn object_offsets(objects: Seq<Seq<u8>>) -> Seq<nat> {
    Seq::new(objects.len(), |k: int| file_header().len() + concat(objects.take(k)).len())
}

/// One in-use line of the cross-reference table.
pub open spec fn xref_entry(offset: nat) -> Seq<u8> {
    zero_padded(offset, 10) + text(" 00000 n \n")
}

/// The in-use lines of the cross-reference table, one per object.
pub open spec fn xref_entries(offsets: Seq<nat>) -> Seq<u8> {
    concat(offsets.map_values(|o: nat| xref_entry(o)))
}

/// The cross-reference table: one subsection from object 0, the free head
/// entry of object 0, then a line per object.
pub open spec fn xref_table(offsets: Seq<nat>) -> Seq<u8> {
    text("xref\n0 ") + decimal(offsets.len() + 1) + text("\n0000000000 65535 f \n") + xref_entries(
        offsets,
    )
}

/// The trailer of a file with `count` objects whose table starts at `xref_at`.
pub open spec fn trailer(count: nat, xref_at: nat) -> Seq<u8> {
    text("trailer\n<<\n/Size ") + decimal(count + 1) + text("\n/Root 1 0 R\n>>\nstartxref\n")
        + decimal(xref_at) + text("\n%%EOF\n")
}

/// A whole file made of `objects`, numbered from 1 in order.
pub open spec fn file_of(objects: Seq<Seq<u8>>) -> Seq<u8> {
    let body = file_header() + concat(objects);
    body + xref_table(object_offsets(objects)) + trailer(objects.len(), body.len())
}

/// Collects the indirect objects of a file. Bytes are only ever appended:
/// each object's offset is recorded as it is written and nothing written is
/// changed afterwards.
pub struct ObjectWriter {
    buf: Vec<u8>,
    offsets: Vec<usize>,
    objects: Ghost<Seq<Seq<u8>>>,
}

impl ObjectWriter {
    /// The objects written so far, each with its header line.
    pub closed spec fn objects(&self) -> Seq<Seq<u8>> {
        self.objects@
    }

    pub closed spec fn wf(&self) -> bool {
        &&& self.buf@ == file_header() + concat(self.objects@)
        &&& self.objects@.len() <= MAX_OBJECTS
        &&& self.offsets@.len() == self.objects@.len()
        &&& forall|k: int|
            0 <= k < self.offsets@.len() ==> self.offsets@[k] as nat == object_offsets(
                self.objects@,
            )[k]
    }

    /// A writer holding the file header and no object.
    pub fn new() -> (w: ObjectWriter)
        ensures
            w.wf(),
            w.objects() == Seq::<Seq<u8>>::empty(),
    {
        let mut buf: Vec<u8> = Vec::new();
        put(&mut buf, "%PDF-1.4\n");
        buf.push(37);
        buf.push(0xE2);
        buf.push(0xE3);
        buf.push(0xCF);
        buf.push(0xD3);
        buf.push(10);
        let w = ObjectWriter { buf, offsets: Vec::new(), objects: Ghost(Seq::empty()) };
        assert(w.buf@ =~= file_header() + concat(w.objects@));
        w
    }

    /// The number of objects written so far.
    pub fn count(&self) -> (r: usize)
        requires
            self.wf(),
        ensures
            r == self.objects().len(),
    {
        self.offsets.len()
    }

    /// Writes the next object: its header line, numbered one past the
    /// objects before it, then `body`.
    pub fn add_object(&mut self, body: &[u8])
        requires
            old(self).wf(),
            old(self).objects().len() < MAX_OBJECTS,
        ensures
            final(self).wf(),
            final(self).objects() == old(self).objects().push(
                object_header(old(self).objects().len() + 1) + body@,
            ),
    {
        let ghost objs = self.objects@;
        let ghost obj = object_header(objs.len() + 1) + body@;
        let at = self.buf.len();
        let number = self.offsets.len() + 1;
        push_decimal(&mut self.buf, number as u64);
        put(&mut self.buf, " 0 obj\n");
        self.buf.extend_from_slice(body);
        self.offsets.push(at);
        self.objects = Ghost(objs.push(obj));
        proof {
            let pushed = objs.push(obj);
            assert(pushed.drop_last() =~= objs);
            assert(self.buf@ =~= file_header() + concat(pushed));
            assert forall|k: int| 0 <= k < self.offsets@.len() implies self.offsets@[k] as nat
                == object_offsets(pushed)[k] by {
                assert(pushed.take(k) =~= objs.take(k) || k == objs.len());
                if k == objs.len() {
                    assert(pushed.take(k) =~= objs);
                } else {
                    assert(pushed.take(k) =~= objs.take(k));
                }
            }
        }
    }

    /// Ends the file: the cross-reference table, then the trailer.
    pub fn finish(self) -> (r: Vec<u8>)
        requires
            self.wf(),
        ensures
            r@ == file_of(self.objects()),
    {
        let ghost objs = self.objects@;
        let ghost offs = object_offsets(objs);
        let mut buf = self.buf;
        let offsets = self.offsets;
        let xref_at = buf.len();
        let count = offsets.len();
        let ghost body = buf@;
        put(&mut buf, "xref\n0 ");
        push_decimal(&mut buf, count as u64 + 1);
        put(&mut buf, "\n0000000000 65535 f \n");
        let ghost table_start = buf@;
        let mut i: usize = 0;
        while i < count
            invariant
                count == offsets@.len() == offs.len(),
                i <= count,
                forall|k: int| 0 <= k < offsets@.len() ==> offsets@[k] as nat == offs[k],
                buf@ == table_start + xref_entries(offs.take(i as int)),
            decreases count - i,
        {
            let ghost before = buf@;
            push_zero_padded(&mut buf, offsets[i] as u64, 10);
            put(&mut buf, " 00000 n \n");
            proof {
                let lines = offs.take(i as int).map_values(|o: nat| xref_entry(o));
                let next = offs.take(i + 1).map_values(|o: nat| xref_entry(o));
                assert(next.drop_last() =~= lines);
                assert(buf@ =~= table_start + xref_entries(offs.take(i + 1)));
            }
            i = i + 1;
        }
        assert(offs.take(count as int) =~= offs);
        put(&mut buf, "trailer\n<<\n/Size ");
        push_decimal(&mut buf, count as u64 + 1);
        put(&mut buf, "\n/Root 1 0 R\n>>\nstartxref\n");
        push_decimal(&mut buf, xref_at as u64);
        put(&mut buf, "\n%%EOF\n");
        assert(buf@ =~= file_of(objs));
        buf
    }
}

/// A page dimension in hundredths of a point (1/72 inch) for `pixels`
/// samples at the renderer's resolution.
pub open spec fn points(pixels: u16) -> nat {
    (pixels as nat) * 7200 / (DPI as nat)
}

pub open spec fn page_object_number(index: nat) -> nat {
    3 + 2 * index
}

pub open spec fn image_object_number(index: nat) -> nat {
    4 + 2 * index
}

pub open spec fn content_object_number(page_count: nat, index: nat) -> nat {
    3 + 2 * page_count + index
}

pub open spec fn object_count(page_count: nat) -> nat {
    2 + 3 * page_count
}

pub open spec fn catalog_body() -> Seq<u8> {
    text("<<\n/Type /Catalog\n/Pages 2 0 R\n>>\nendobj\n")
}

/// The references to the first `count` page objects, in page order.
pub open spec fn kids(count: nat) -> Seq<u8>
    decreases count,
{
    if count == 0 {
        Seq::empty()
    } else {
        kids((count - 1) as nat) + decimal(page_object_number((count - 1) as nat)) + text(" 0 R ")
    }
}

pub open spec fn page_tree_body(page_count: nat) -> Seq<u8> {
    text("<<\n/Type /Pages\n/Kids [") + kids(page_count) + text("]\n/Count ") + decimal(page_count)
        + text("\n>>\nendobj\n")
}

pub open spec fn page_body(index: nat, page: PageModel, page_count: nat) -> Seq<u8> {
    text("<<\n/Type /Page\n/Parent 2 0 R\n/MediaBox [0 0 ") + fixed2(points(page.width)) + text(" ")
        + fixed2(points(page.height)) + text("]\n/Resources <<\n  /XObject << /Im") + decimal(index)
        + text(" ") + decimal(image_object_number(index)) + text(" 0 R >>\n>>\n/Contents ")
        + decimal(content_object_number(page_count, index)) + text(" 0 R\n>>\nendobj\n")
}

pub open spec fn image_body(page: PageModel, stream: Seq<u8>) -> Seq<u8> {
    text("<<\n/Type /XObject\n/Subtype /Image\n/Width ") + decimal(page.width as nat) + text(
        "\n/Height ",
    ) + decimal(page.height as nat) + text(
        "\n/ColorSpace /DeviceRGB\n/BitsPerComponent 8\n/Filter /FlateDecode\n/Length ",
    ) + decimal(stream.len()) + text("\n>>\nstream\n") + stream + text("\nendstream\nendobj\n")
}

/// The drawing program of a page: scale the unit square to the page and
/// paint the page's image on it.
pub open spec fn content_stream(index: nat, page: PageModel) -> Seq<u8> {
    text("q\n") + fixed2(points(page.width)) + text(" 0 0 ") + fixed2(points(page.height)) + text(
        " 0 0 cm\n/Im",
    ) + decimal(index) + text(" Do\nQ\n")
}

pub open spec fn content_body(index: nat, page: PageModel) -> Seq<u8> {
    let program = content_stream(index, page);
    text("<<\n/Length ") + decimal(program.len()) + text("\n>>\nstream\n") + program + text(
        "\nendstream\nendobj\n",
    )
}

/// What follows the header line of object `k + 1`: the catalog, the page
/// tree, a page object and an image object for each page in turn, then the
/// content streams in page order.
pub open spec fn object_body(pages: Seq<PageModel>, streams: Seq<Seq<u8>>, k: nat) -> Seq<u8> {
    let n = pages.len();
    if k == 0 {
        catalog_body()
    } else if k == 1 {
        page_tree_body(n)
    } else if k < 2 + 2 * n {
        let i = ((k - 2) / 2) as nat;
        if (k - 2) % 2 == 0 {
            page_body(i, pages[i as int], n)
        } else {
            image_body(pages[i as int], streams[i as int])
        }
    } else {
        let i = (k - 2 - 2 * n) as nat;
        content_body(i, pages[i as int])
    }
}

/// The objects of the document for `pages`, whose samples were compressed
/// into `streams`.
pub open spec fn document_objects(pages: Seq<PageModel>, streams: Seq<Seq<u8>>) -> Seq<Seq<u8>> {
    Seq::new(
        object_count(pages.len()),
        |k: int| object_header((k + 1) as nat) + object_body(pages, streams, k as nat),
    )
}

/// The PDF file for `pages`, whose samples were compressed into `streams`.
pub open spec fn pdf_document(pages: Seq<PageModel>, streams: Seq<Seq<u8>>) -> Seq<u8> {
    file_of(document_objects(pages, streams))
}

/// What flate2's zlib encoder emits at the default level for `data`.
pub uninterp spec fn zlib_of(data: Seq<u8>) -> Seq<u8>;

/// The compressed sample streams of `pages`.
pub open spec fn compressed_streams(pages: Seq<PageModel>) -> Seq<Seq<u8>> {
    pages.map_values(|p: PageModel| zlib_of(p.pixels))
}

pub open spec fn stream_views(streams: Seq<Vec<u8>>) -> Seq<Seq<u8>> {
    streams.map_values(|v: Vec<u8>| v@)
}

/// Relies on flate2's `write::ZlibEncoder` with `Compression::default()`:
/// the zlib stream it emits depends on the input bytes alone. Its default
/// backend (miniz_oxide) fails only on bad parameters or a failed output
/// callback, and writing into a `Vec` never fails, so the stream is always
/// produced.
#[verifier::external_body]
fn zlib_compress(data: &[u8]) -> (r: Option<Vec<u8>>)
    ensures
        r is Some,
        r matches Some(z) ==> z@ == zlib_of(data@),
{
    let mut encoder = flate2::write::ZlibEncoder::new(Vec::new(), flate2::Compression::default());
    match std::io::Write::write_all(&mut encoder, data) {
        Ok(()) => encoder.finish().ok(),
        Err(_) => None,
    }
}

fn build_catalog_body() -> (r: Vec<u8>)
    ensures
        r@ == catalog_body(),
{
    let mut out: Vec<u8> = Vec::new();
    put(&mut out, "<<\n/Type /Catalog\n/Pages 2 0 R\n>>\nendobj\n");
    out
}

fn build_page_tree_body(page_count: usize) -> (r: Vec<u8>)
    requires
        page_count <= 65535,
    ensures
        r@ == page_tree_body(page_count as nat),
{
    let mut out: Vec<u8> = Vec::new();
    put(&mut out, "<<\n/Type /Pages\n/Kids [");
    let ghost start = out@;
    let mut i: usize = 0;
    while i < page_count
        invariant
            page_count <= 65535,
            i <= page_count,
            out@ == start + kids(i as nat),
        decreases page_count - i,
    {
        push_decimal(&mut out, 3 + 2 * i as u64);
        put(&mut out, " 0 R ");
        i = i + 1;
        assert(out@ =~= start + kids(i as nat));
    }
    put(&mut out, "]\n/Count ");
    push_decimal(&mut out, page_count as u64);
    put(&mut out, "\n>>\nendobj\n");
    assert(out@ =~= page_tree_body(page_count as nat));
    out
}

fn page_points(pixels: u16) -> (r: u64)
    ensures
        r == points(pixels),
{
    (pixels as u64) * 7200 / DPI
}

fn build_page_body(index: usize, page: &PageData, page_count: usize) -> (r: Vec<u8>)
    requires
        index < page_count <= 65535,
    ensures
        r@ == page_body(index as nat, page@, page_count as nat),
{
    let mut out: Vec<u8> = Vec::new();
    put(&mut out, "<<\n/Type /Page\n/Parent 2 0 R\n/MediaBox [0 0 ");
    push_fixed2(&mut out, page_points(page.width));
    put(&mut out, " ");
    push_fixed2(&mut out, page_points(page.height));
    put(&mut out, "]\n/Resources <<\n  /XObject << /Im");
    push_decimal(&mut out, index as u64);
    put(&mut out, " ");
    push_decimal(&mut out, 4 + 2 * index as u64);
    put(&mut out, " 0 R >>\n>>\n/Contents ");
    push_decimal(&mut out, 3 + 2 * page_count as u64 + index as u64);
    put(&mut out, " 0 R\n>>\nendobj\n");
    assert(out@ =~= page_body(index as nat, page@, page_count as nat));
    out
}

fn build_image_body(page: &PageData, stream: &[u8]) -> (r: Vec<u8>)
    ensures
        r@ == image_body(page@, stream@),
{
    let mut out: Vec<u8> = Vec::new();
    put(&mut out, "<<\n/Type /XObject\n/Subtype /Image\n/Width ");
    push_decimal(&mut out, page.width as u64);
    put(&mut out, "\n/Height ");
    push_decimal(&mut out, page.height as u64);
    put(&mut out, "\n/ColorSpace /DeviceRGB\n/BitsPerComponent 8\n/Filter /FlateDecode\n/Length ");
    push_decimal(&mut out, stream.len() as u64);
    put(&mut out, "\n>>\nstream\n");
    let ghost before = out@;
    out.extend_from_slice(stream);
    assert(out@ =~= before + stream@);
    put(&mut out, "\nendstream\nendobj\n");
    assert(out@ =~= image_body(page@, stream@));
    out
}

fn build_content_stream(index: usize, page: &PageData) -> (r: Vec<u8>)
    requires
        index <= 65535,
    ensures
        r@ == content_stream(index as nat, page@),
{
    let mut out: Vec<u8> = Vec::new();
    put(&mut out, "q\n");
    push_fixed2(&mut out, page_points(page.width));
    put(&mut out, " 0 0 ");
    push_fixed2(&mut out, page_points(page.height));
    put(&mut out, " 0 0 cm\n/Im");
    push_decimal(&mut out, index as u64);
    put(&mut out, " Do\nQ\n");
    assert(out@ =~= content_stream(index as nat, page@));
    out
}

fn build_content_body(index: usize, page: &PageData) -> (r: Vec<u8>)
    requires
        index <= 65535,
    ensures
        r@ == content_body(index as nat, page@),
{
    let program = build_content_stream(index, page);
    let mut out: Vec<u8> = Vec::new();
    put(&mut out, "<<\n/Length ");
    push_decimal(&mut out, program.len() as u64);
    put(&mut out, "\n>>\nstream\n");
    let ghost before = out@;
    out.extend_from_slice(program.as_slice());
    assert(out@ =~= before + program@);
    put(&mut out, "\nendstream\nendobj\n");
    assert(out@ =~= content_body(index as nat, page@));
    out
}

/// Assembles the PDF for `pages` from the compressed sample stream of each
/// page. Fails only where there is no page.
pub fn assemble_pdf(pages: &[PageData], streams: &[Vec<u8>]) -> (r: Result<
    Vec<u8>,
    ConversionError,
>)
    requires
        pages@.len() <= 65535,
        streams@.len() == pages@.len(),
    ensures
        pages@.len() == 0 ==> r == Err::<Vec<u8>, _>(ConversionError::EmptyDocument),
        pages@.len() > 0 ==> (r matches Ok(pdf) && pdf@ == pdf_document(
            models(pages@),
            stream_views(streams@),
        )),
{
    let n = pages.len();
    if n == 0 {
        return Err(ConversionError::EmptyDocument);
    }
    let ghost ps = models(pages@);
    let ghost zs = stream_views(streams@);
    let ghost objs = document_objects(ps, zs);
    let mut w = ObjectWriter::new();
    let catalog = build_catalog_body();
    w.add_object(catalog.as_slice());
    let tree = build_page_tree_body(n);
    w.add_object(tree.as_slice());
    assert(w.objects() =~= objs.take(2));
    let mut i: usize = 0;
    while i < n
        invariant
            n == pages@.len() == streams@.len(),
            0 < n <= 65535,
            i <= n,
            ps == models(pages@),
            zs == stream_views(streams@),
            objs == document_objects(ps, zs),
            w.wf(),
            w.objects() == objs.take(2 + 2 * i),
        decreases n - i,
    {
        let page = &pages[i];
        let body = build_page_body(i, page, n);
        w.add_object(body.as_slice());
        let image = build_image_body(page, streams[i].as_slice());
        w.add_object(image.as_slice());
        proof {
            let k = 2 + 2 * i;
            assert(((k - 2) / 2) as nat == i && (k - 2) % 2 == 0);
            assert(((k + 1 - 2) / 2) as nat == i && (k + 1 - 2) % 2 == 1);
            assert(objs[k] == object_header((k + 1) as nat) + body@);
            assert(objs[k + 1] == object_header((k + 2) as nat) + image@);
            assert(w.objects() =~= objs.take(2 + 2 * (i + 1)));
        }
        i = i + 1;
    }
    let mut j: usize = 0;
    while j < n
        invariant
            n == pages@.len() == streams@.len(),
            0 < n <= 65535,
            j <= n,
            ps == models(pages@),
            zs == stream_views(streams@),
            objs == document_objects(ps, zs),
            w.wf(),
            w.objects() == objs.take(2 + 2 * n + j),
        decreases n - j,
    {
        let body = build_content_body(j, &pages[j]);
        w.add_object(body.as_slice());
        proof {
            let k = 2 + 2 * n + j;
            assert(objs[k] == object_header((k + 1) as nat) + body@);
            assert(w.objects() =~= objs.take(2 + 2 * n + j + 1));
        }
        j = j + 1;
    }
    assert(objs.take(2 + 3 * n) =~= objs);
    Ok(w.finish())
}

/// Compresses the samples of each page, in page order.
pub fn compress_pages(pages: &[PageData]) -> (r: Vec<Vec<u8>>)
    ensures
        r@.len() == pages@.len(),
        stream_views(r@) == compressed_streams(models(pages@)),
{
    let mut streams: Vec<Vec<u8>> = Vec::new();
    let mut i: usize = 0;
    while i < pages.len()
        invariant
            i <= pages@.len(),
            stream_views(streams@) == compressed_streams(models(pages@)).take(i as int),
        decreases pages@.len() - i,
    {
        let z = zlib_compress(pages[i].pixels.as_slice()).unwrap();
        assert(models(pages@)[i as int].pixels == pages@[i as int].pixels@);
        let ghost before = streams@;
        streams.push(z);
        assert(stream_views(streams@) =~= stream_views(before).push(z@));
        assert(stream_views(streams@) =~= compressed_streams(models(pages@)).take(i + 1));
        i = i + 1;
    }
    assert(compressed_streams(models(pages@)).take(pages@.len() as int) =~= compressed_streams(
        models(pages@),
    ));
    streams
}

/// Writes the PDF for `pages` to the end of `out`. With no page nothing is
/// written and the document is refused as empty.
pub fn write_pdf(out: &mut Vec<u8>, pages: &[PageData]) -> (r: Result<(), ConversionError>)
    requires
        pages@.len() <= 65535,
    ensures
        pages@.len() == 0 ==> r == Err::<(), _>(ConversionError::EmptyDocument) && final(out)@
            == old(out)@,
        pages@.len() > 0 ==> r is Ok && final(out)@ == old(out)@ + pdf_document(
            models(pages@),
            compressed_streams(models(pages@)),
        ),
{
    if pages.len() == 0 {
        return Err(ConversionError::EmptyDocument);
    }
    let streams = compress_pages(pages);
    match assemble_pdf(pages, streams.as_slice()) {
        Ok(pdf) => {
            out.extend_from_slice(pdf.as_slice());
            assert(out@ =~= old(out)@ + pdf@);
            Ok(())
        },
        Err(e) => Err(e),
    }
}

/// The PDF for `pages`; a document with no page is refused as empty.
pub fn pixels_to_pdf(pages: Vec<PageData>) -> (r: Result<Vec<u8>, ConversionError>)
    requires
        pages@.len() <= 65535,
    ensures
        pages@.len() == 0 ==> r == Err::<Vec<u8>, _>(ConversionError::EmptyDocument),
        pages@.len() > 0 ==> (r matches Ok(pdf) && pdf@ == pdf_document(
            models(pages@),
            compressed_streams(models(pages@)),
        )),
{
    let mut pdf: Vec<u8> = Vec::new();
    match write_pdf(&mut pdf, pages.as_slice()) {
        Ok(()) => {
            assert(pdf@ =~= Seq::<u8>::empty() + pdf@);
            Ok(pdf)
        },
        Err(e) => Err(e),
    }
}

} // verus!

use vstd::prelude::*;

use crate::decimal::{decimal, lemma_decimal_len, pow10, zero_padded};
use crate::page::PageModel;
use crate::pdf::{
    concat, document_objects, file_header, file_of, object_count, object_header, object_offsets,
    pdf_document, text, xref_entry,
};

verus! {

/// The bytes of the cross-reference table that come before the line of object 1.
pub open spec fn xref_head(count: nat) -> Seq<u8> {
    text("xref\n0 ") + decimal(count + 1) + text("\n0000000000 65535 f \n")
}

/// Where the cross-reference line of object `n` starts in `file_of(objects)`:
/// lines are 20 bytes each and follow the head in object order.
pub open spec fn xref_line_at(objects: Seq<Seq<u8>>, n: nat) -> nat {
    (file_header().len() + concat(objects).len() + xref_head(objects.len()).len() + 20 * (n - 1)) as nat
}

pub proof fn lemma_concat_append(a: Seq<Seq<u8>>, b: Seq<Seq<u8>>)
    ensures
        concat(a + b) == concat(a) + concat(b),
    decreases b.len(),
{
    if b.len() == 0 {
        assert(a + b =~= a);
        assert(concat(a) + concat(b) =~= concat(a));
    } else {
        assert((a + b).drop_last() =~= a + b.drop_last());
        assert((a + b).last() == b.last());
        lemma_concat_append(a, b.drop_last());
        assert(concat(a + b) =~= concat(a) + concat(b));
    }
}

/// Part `k` of `parts` stands in their concatenation right after the parts
/// before it.
pub proof fn lemma_concat_part(parts: Seq<Seq<u8>>, k: int)
    requires
        0 <= k < parts.len(),
    ensures
        concat(parts.take(k)).len() + parts[k].len() <= concat(parts).len(),
        concat(parts).subrange(
            concat(parts.take(k)).len() as int,
            (concat(parts.take(k)).len() + parts[k].len()) as int,
        ) == parts[k],
{
    let front = parts.take(k + 1);
    assert(front.drop_last() =~= parts.take(k));
    assert(front.last() == parts[k]);
    assert(parts =~= front + parts.skip(k + 1));
    lemma_concat_append(front, parts.skip(k + 1));
    let start = concat(parts.take(k)).len() as int;
    assert(concat(parts).subrange(start, start + parts[k].len()) =~= parts[k]);
}

proof fn lemma_concat_uniform(parts: Seq<Seq<u8>>, width: nat)
    requires
        forall|i: int| 0 <= i < parts.len() ==> (#[trigger] parts[i]).len() == width,
    ensures
        concat(parts).len() == width * parts.len(),
    decreases parts.len(),
{
    if parts.len() > 0 {
        lemma_concat_uniform(parts.drop_last(), width);
        assert(width * parts.len() == width * (parts.len() - 1) + width) by (nonlinear_arith);
    }
}

proof fn lemma_entry_len(offset: nat)
    requires
        offset < pow10(10),
    ensures
        zero_padded(offset, 10).len() == 10,
        xref_entry(offset).len() == 20,
{
    lemma_decimal_len(offset, 10);
    reveal_strlit(" 00000 n \n");
    assert(vstd::utf8::is_ascii_chars(" 00000 n \n"@));
    vstd::utf8::is_ascii_chars_encode_utf8(" 00000 n \n"@);
}

/// For every object of an assembled file, the cross-reference table records
/// the offset at which the object's header line `{n} 0 obj` stands: the line
/// of object `n` holds that offset in ten zero-padded digits.
pub proof fn lemma_offset_integrity(pages: Seq<PageModel>, streams: Seq<Seq<u8>>, n: nat)
    requires
        streams.len() == pages.len(),
        1 <= n <= object_count(pages.len()),
        pdf_document(pages, streams).len() < pow10(10),
    ensures
        ({
            let objects = document_objects(pages, streams);
            let pdf = pdf_document(pages, streams);
            let offset = object_offsets(objects)[n - 1];
            let line = xref_line_at(objects, n);
            &&& offset + object_header(n).len() <= pdf.len()
            &&& pdf.subrange(offset as int, (offset + object_header(n).len()) as int) == object_header(n)
            &&& line + 20 <= pdf.len()
            &&& pdf.subrange(line as int, line + 20int) == xref_entry(offset)
            &&& pdf.subrange(line as int, line + 10int) == zero_padded(offset, 10)
        }),
{
    let objects = document_objects(pages, streams);
    let pdf = pdf_document(pages, streams);
    let k = n - 1;
    let offsets = object_offsets(objects);
    let offset = offsets[k];
    let head = file_header();
    let body = head + concat(objects);
    let lines = offsets.map_values(|o: nat| xref_entry(o));
    // the object's bytes within the file
    lemma_concat_part(objects, k);
    let before = concat(objects.take(k)).len();
    assert(offset == head.len() + before);
    assert(objects[k] == object_header(n) + objects[k].subrange(
        object_header(n).len() as int,
        objects[k].len() as int,
    ));
    assert(pdf.subrange(offset as int, (offset + object_header(n).len()) as int) =~= object_header(n)) by {
        assert forall|i: int| 0 <= i < object_header(n).len() implies pdf[offset + i]
            == object_header(n)[i] by {
            assert(pdf[offset + i] == body[offset + i]);
            assert(body[offset + i] == concat(objects)[before + i]);
            assert(concat(objects)[before + i] == objects[k][i]);
        }
    }
    // the object's line within the table
    assert forall|i: int| 0 <= i < objects.len() implies offsets[i] < pow10(10) by {
        lemma_concat_part(objects, i);
        assert(offsets[i] <= body.len());
    }
    assert forall|i: int| 0 <= i < lines.len() implies (#[trigger] lines[i]).len() == 20 by {
        lemma_entry_len(offsets[i]);
    }
    lemma_concat_uniform(lines.take(k), 20);
    lemma_concat_part(lines, k);
    lemma_entry_len(offset);
    let table_at = body.len() + xref_head(objects.len()).len();
    let line = xref_line_at(objects, n);
    assert(line == table_at + 20 * k);
    assert(pdf == body + xref_head(objects.len()) + concat(lines) + (pdf.subrange(
        (table_at + concat(lines).len()) as int,
        pdf.len() as int,
    )));
    assert(pdf.subrange(line as int, line + 20int) =~= xref_entry(offset)) by {
        assert forall|i: int| 0 <= i < 20 implies pdf[line + i] == xref_entry(offset)[i] by {
            assert(pdf[line + i] == concat(lines)[20 * k + i]);
            assert(concat(lines)[20 * k + i] == lines[k][i]);
        }
    }
    assert(pdf.subrange(line as int, line + 10int) =~= zero_padded(offset, 10)) by {
        assert forall|i: int| 0 <= i < 10 implies pdf[line + i] == zero_padded(offset, 10)[i] by {
            assert(pdf[line + i] == pdf.subrange(line as int, line + 20int)[i]);
        }
    }
}

} // verus!

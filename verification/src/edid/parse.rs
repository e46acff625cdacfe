//! Parsing the base EDID block: manufacturer, product, serial number, production
//! date and the monitor name.
use vstd::prelude::*;
use crate::edid::error::Error;
use crate::text::{lossy_text, trim, trimmed, three_chars, utf8_lossy};

verus! {

/// When a monitor was made, or the model year it belongs to.
#[derive(Debug, Clone, Copy, PartialEq, Eq, Structural)]
pub enum ProductionDate {
    Manufacture { week: u8, year: u16 },
    ModelYear { year: u16 },
}

/// What the base EDID block tells of a monitor.
#[derive(Debug)]
pub struct EdidData {
    /// The three-letter manufacturer id.
    pub id: String,
    /// The name in the monitor name descriptor, if there is one.
    pub name: Option<String>,
    pub product_code: u16,
    pub serial_number: u32,
    pub production_date: ProductionDate,
}

/// The manufacturer word: bytes 8 and 9, big endian.
pub open spec fn manufacturer_word(edid: Seq<u8>) -> u16 {
    (edid[8] * 256 + edid[9]) as u16
}

/// The three five-bit letter codes of the manufacturer word, first letter highest.
pub open spec fn letter_codes(edid: Seq<u8>) -> (u8, u8, u8) {
    let m = manufacturer_word(edid);
    (((m >> 10u16) & 0x1fu16) as u8, ((m >> 5u16) & 0x1fu16) as u8, (m & 0x1fu16) as u8)
}

/// A letter code stands for a letter when it lies in 1..=26.
pub open spec fn is_letter_code(code: u8) -> bool {
    1 <= code <= 26
}

/// The letter of a code: 1 is 'A', 26 is 'Z'.
pub open spec fn letter_of(code: u8) -> char {
    (64 + code) as char
}

/// Whether the three letter codes of an EDID all stand for letters.
pub open spec fn has_manufacturer_letters(edid: Seq<u8>) -> bool {
    let (a, b, c) = letter_codes(edid);
    is_letter_code(a) && is_letter_code(b) && is_letter_code(c)
}

/// The manufacturer id of an EDID whose letter codes are valid.
pub open spec fn manufacturer_id(edid: Seq<u8>) -> Seq<char> {
    let (a, b, c) = letter_codes(edid);
    seq![letter_of(a), letter_of(b), letter_of(c)]
}

/// The product code: bytes 10 and 11, little endian.
pub open spec fn product_code_of(edid: Seq<u8>) -> u16 {
    (edid[10] + 256 * edid[11]) as u16
}

/// The serial number: bytes 12 to 15, little endian.
pub open spec fn serial_number_of(edid: Seq<u8>) -> u32 {
    (edid[12] + 256 * edid[13] + 65536 * edid[14] + 16777216 * edid[15]) as u32
}

/// The production date: week 0xff in byte 16 marks a model year; the year is byte 17
/// plus 1990.
pub open spec fn production_date_of(edid: Seq<u8>) -> ProductionDate {
    let year = (edid[17] + 1990) as u16;
    if edid[16] == 0xff {
        ProductionDate::ModelYear { year }
    } else {
        ProductionDate::Manufacture { week: edid[16], year }
    }
}

/// A name ends at its first line feed or zero byte, or at its end when it holds none.
pub open spec fn name_end(name: Seq<u8>) -> int
    decreases name.len(),
{
    if name.len() == 0 {
        0
    } else if name[0] == 0x0a || name[0] == 0x00 {
        0
    } else {
        1 + name_end(name.drop_first())
    }
}

/// The offset of the `k`-th of the four descriptors of the base block.
pub open spec fn descriptor_offset(k: int) -> int {
    54 + 18 * k
}

/// The text of the name descriptor at `offset`: its thirteen text bytes up to the end
/// of the name, decoded leniently as UTF-8 and trimmed.
pub open spec fn descriptor_name(edid: Seq<u8>, offset: int) -> Seq<char> {
    let text = edid.subrange(offset + 5, offset + 18);
    trimmed(lossy_text(text.take(name_end(text))))
}

/// The name in the first monitor name descriptor (tag 0xfc) from the `k`-th on.
pub open spec fn name_from(edid: Seq<u8>, k: nat) -> Option<Seq<char>>
    decreases 4 - k,
{
    if k >= 4 {
        None
    } else if edid[descriptor_offset(k as int) + 3] == 0xfc {
        Some(descriptor_name(edid, descriptor_offset(k as int)))
    } else {
        name_from(edid, k + 1)
    }
}

/// The monitor name of an EDID: that of the first name descriptor.
pub open spec fn monitor_name(edid: Seq<u8>) -> Option<Seq<char>> {
    name_from(edid, 0)
}

/// An optional string, taken by its characters.
pub open spec fn text_option(name: Option<String>) -> Option<Seq<char>> {
    match name {
        Some(s) => Some(s@),
        None => None,
    }
}

/// Parses the base block of an EDID.
pub fn parse(edid: &[u8]) -> (res: Result<EdidData, Error>)
    ensures
        edid@.len() < 128 ==> res matches Err(Error::InvalidReturnData),
        edid@.len() >= 128 && !has_manufacturer_letters(edid@) ==> res matches Err(
            Error::InvalidReturnData,
        ),
        edid@.len() >= 128 && has_manufacturer_letters(edid@) ==> (res matches Ok(data) && {
            &&& data.id@ == manufacturer_id(edid@)
            &&& text_option(data.name) == monitor_name(edid@)
            &&& data.product_code == product_code_of(edid@)
            &&& data.serial_number == serial_number_of(edid@)
            &&& data.production_date == production_date_of(edid@)
        }),
{
    if edid.len() < 128 {
        return Err(Error::InvalidReturnData);
    }

    let manufacturer: u16 = (edid[8] as u16) * 256 + (edid[9] as u16);

    let first = ((manufacturer >> 10) & 0x1f) as u8;
    let second = ((manufacturer >> 5) & 0x1f) as u8;
    let third = (manufacturer & 0x1f) as u8;

    let a = manufacturer_letter(first)?;
    let b = manufacturer_letter(second)?;
    let c = manufacturer_letter(third)?;
    let id = three_chars(a, b, c);

    let product_code: u16 = (edid[10] as u16) + 256 * (edid[11] as u16);

    let serial_number: u32 = (edid[12] as u32) + 256 * (edid[13] as u32) + 65536 * (edid[14] as u32)
        + 16777216 * (edid[15] as u32);

    let year: u16 = (edid[17] as u16) + 1990;
    let production_date = if edid[16] == 0xff {
        ProductionDate::ModelYear { year }
    } else {
        ProductionDate::Manufacture { week: edid[16], year }
    };

    let name = parse_name(edid);

    Ok(EdidData { id, name, product_code, serial_number, production_date })
}

/// The name in the first monitor name descriptor of the base block.
fn parse_name(edid: &[u8]) -> (name: Option<String>)
    requires
        edid@.len() >= 126,
    ensures
        text_option(name) == monitor_name(edid@),
{
    let mut k: usize = 0;
    while k < 4
        invariant
            k <= 4,
            edid@.len() >= 126,
            name_from(edid@, 0) == name_from(edid@, k as nat),
        decreases 4 - k,
    {
        let offset = 54 + 18 * k;
        if edid[offset + 3] == 0xfc {
            let text = &edid[offset + 5..offset + 18];
            let end = name_length(text);
            proof {
                lemma_name_end_bound(text@);
                assert(text@.subrange(0, end as int) == text@.take(end as int));
            }
            let decoded = utf8_lossy(&text[0..end]);
            let trimmed = trim(decoded.as_str());
            return Some(trimmed);
        }
        k = k + 1;
    }
    None
}

/// A name ends within it.
proof fn lemma_name_end_bound(name: Seq<u8>)
    ensures
        0 <= name_end(name) <= name.len(),
    decreases name.len(),
{
    if name.len() > 0 {
        lemma_name_end_bound(name.drop_first());
    }
}

/// A name ends at the first line feed or zero byte in it, or at its end when it holds
/// none.
pub proof fn lemma_name_end_at(name: Seq<u8>, end: int)
    requires
        0 <= end <= name.len(),
        forall|i: int| 0 <= i < end ==> name[i] != 0x0a && name[i] != 0x00,
        end == name.len() || name[end] == 0x0a || name[end] == 0x00,
    ensures
        name_end(name) == end,
    decreases end,
{
    if end > 0 {
        let rest = name.drop_first();
        assert(name[0] != 0x0a && name[0] != 0x00);
        assert forall|i: int| 0 <= i < end - 1 implies rest[i] != 0x0a && rest[i] != 0x00 by {
            assert(rest[i] == name[i + 1]);
        }
        if end < name.len() {
            assert(rest[end - 1] == name[end]);
        }
        lemma_name_end_at(rest, end - 1);
    }
}

/// The monitor name comes from the first of the four descriptors of the base block, at
/// offsets 54, 72, 90 and 108, whose tag byte (the fourth) is 0xfc: it is the text in
/// the thirteen bytes from the sixth byte of that descriptor on, up to the first line
/// feed or zero byte, decoded and trimmed.
pub proof fn law_monitor_name_from_first_name_descriptor(edid: Seq<u8>, offset: int, end: int)
    requires
        edid.len() >= 128,
        offset == 54 || offset == 72 || offset == 90 || offset == 108,
        edid[offset + 3] == 0xfc,
        offset > 54 ==> edid[57] != 0xfc,
        offset > 72 ==> edid[75] != 0xfc,
        offset > 90 ==> edid[93] != 0xfc,
        0 <= end <= 13,
        forall|i: int| offset + 5 <= i < offset + 5 + end ==> edid[i] != 0x0a && edid[i] != 0x00,
        end == 13 || edid[offset + 5 + end] == 0x0a || edid[offset + 5 + end] == 0x00,
    ensures
        monitor_name(edid) == Some(trimmed(lossy_text(edid.subrange(offset + 5, offset + 5 + end)))),
{
    let text = edid.subrange(offset + 5, offset + 18);
    assert forall|i: int| 0 <= i < end implies text[i] != 0x0a && text[i] != 0x00 by {
        assert(text[i] == edid[offset + 5 + i]);
    }
    if end < 13 {
        assert(text[end] == edid[offset + 5 + end]);
    }
    lemma_name_end_at(text, end);
    assert(text.take(end) == edid.subrange(offset + 5, offset + 5 + end));
    let name = Some(descriptor_name(edid, offset));
    if offset == 54 {
        assert(name_from(edid, 0) == name);
    } else if offset == 72 {
        assert(name_from(edid, 1) == name);
        assert(name_from(edid, 0) == name_from(edid, 1));
    } else if offset == 90 {
        assert(name_from(edid, 2) == name);
        assert(name_from(edid, 1) == name_from(edid, 2));
        assert(name_from(edid, 0) == name_from(edid, 1));
    } else {
        assert(name_from(edid, 3) == name);
        assert(name_from(edid, 2) == name_from(edid, 3));
        assert(name_from(edid, 1) == name_from(edid, 2));
        assert(name_from(edid, 0) == name_from(edid, 1));
    }
}

/// An EDID none of whose four descriptors carries the name tag 0xfc has no monitor name.
pub proof fn law_no_name_without_name_descriptor(edid: Seq<u8>)
    requires
        edid.len() >= 128,
        edid[57] != 0xfc,
        edid[75] != 0xfc,
        edid[93] != 0xfc,
        edid[111] != 0xfc,
    ensures
        monitor_name(edid) == None::<Seq<char>>,
{
    assert(name_from(edid, 4) == None::<Seq<char>>);
    assert(name_from(edid, 3) == name_from(edid, 4));
    assert(name_from(edid, 2) == name_from(edid, 3));
    assert(name_from(edid, 1) == name_from(edid, 2));
    assert(name_from(edid, 0) == name_from(edid, 1));
}

/// The length of a name: the index of its first line feed or zero byte, or its
/// length when it holds none.
fn name_length(name: &[u8]) -> (end: usize)
    ensures
        end == name_end(name@),
{
    let mut i: usize = 0;
    assert(name@.skip(0) == name@);
    while i < name.len()
        invariant
            i <= name.len(),
            name_end(name@) == i + name_end(name@.skip(i as int)),
        decreases name.len() - i,
    {
        if name[i] == 0x0a || name[i] == 0x00 {
            return i;
        }
        assert(name@.skip(i as int).drop_first() == name@.skip(i as int + 1));
        i = i + 1;
    }
    i
}

/// The letter of a five-bit manufacturer code; codes outside 1..=26 are invalid.
fn manufacturer_letter(value: u8) -> (res: Result<char, Error>)
    ensures
        is_letter_code(value) ==> res == Ok::<char, Error>(letter_of(value)),
        !is_letter_code(value) ==> res matches Err(Error::InvalidReturnData),
{
    if !(1 <= value && value <= 26) {
        return Err(Error::InvalidReturnData);
    }
    Ok((64u8 + value) as char)
}

} // verus!

use vstd::prelude::*;

verus! {

/// A workbook file format that can be read from a stream of bytes.
#[derive(Clone, Copy, Debug, PartialEq, Eq, Structural)]
pub enum Format {
    /// The legacy binary format (an OLE compound file).
    Xls,
    /// The Office Open XML format (a ZIP archive).
    Xlsx,
}

/// The signature that starts every OLE compound file, and so every `.xls` workbook.
pub open spec fn compound_file_signature() -> Seq<u8> {
    seq![0xD0u8, 0xCFu8, 0x11u8, 0xE0u8, 0xA1u8, 0xB1u8, 0x1Au8, 0xE1u8]
}

/// The signature that starts a ZIP archive, and so every `.xlsx` workbook.
pub open spec fn zip_signature() -> Seq<u8> {
    seq![0x50u8, 0x4Bu8, 0x03u8, 0x04u8]
}

/// `s` begins with `prefix`.
pub open spec fn starts_with(s: Seq<u8>, prefix: Seq<u8>) -> bool {
    prefix.len() <= s.len() && s.take(prefix.len() as int) == prefix
}

/// The format that the first bytes of a workbook reveal, if any.
pub open spec fn detected_format(bytes: Seq<u8>) -> Option<Format> {
    if starts_with(bytes, compound_file_signature()) {
        Some(Format::Xls)
    } else if starts_with(bytes, zip_signature()) {
        Some(Format::Xlsx)
    } else {
        None
    }
}

/// Whether `bytes` begins with `prefix`.
fn has_prefix(bytes: &[u8], prefix: &Vec<u8>) -> (r: bool)
    ensures
        r == starts_with(bytes@, prefix@),
{
    let n = prefix.len();
    if n > bytes.len() {
        return false;
    }
    for i in 0..n
        invariant
            n == prefix@.len(),
            n <= bytes@.len(),
            forall|k: int| 0 <= k < i ==> bytes@[k] == #[trigger] prefix@[k],
    {
        if bytes[i] != prefix[i] {
            assert(bytes@.take(n as int)[i as int] != prefix@[i as int]);
            return false;
        }
    }
    assert(bytes@.take(n as int) =~= prefix@);
    true
}

/// Recognises a workbook's format from its first bytes.
pub fn detect_format(bytes: &[u8]) -> (f: Option<Format>)
    ensures
        f == detected_format(bytes@),
{
    let compound: Vec<u8> = vec![0xD0u8, 0xCFu8, 0x11u8, 0xE0u8, 0xA1u8, 0xB1u8, 0x1Au8, 0xE1u8];
    let zip: Vec<u8> = vec![0x50u8, 0x4Bu8, 0x03u8, 0x04u8];
    assert(compound@ == compound_file_signature());
    assert(zip@ == zip_signature());
    if has_prefix(bytes, &compound) {
        Some(Format::Xls)
    } else if has_prefix(bytes, &zip) {
        Some(Format::Xlsx)
    } else {
        None
    }
}

} // verus!

//! Mercedes SDflash `.CFF` flash containers: recognised so that a container is never
//! treated as a raw image.

use vstd::prelude::*;

verus! {

/// The ASCII prologue of a CFF container.
pub open spec fn cff_prologue() -> Seq<u8> {
    "CFF-TRANSLATOR-VERSION"@.map_values(|c: char| c as u8)
}

/// Offset of the little-endian `0x05ED` stub magic.
pub const CFF_MAGIC_OFFSET: usize = 0x400;

/// Whether `bytes` starts with the CFF prologue and holds the stub magic at 0x400.
pub open spec fn is_cff(bytes: Seq<u8>) -> bool {
    &&& bytes.len() >= cff_prologue().len()
    &&& bytes.take(cff_prologue().len() as int) == cff_prologue()
    &&& bytes.len() >= CFF_MAGIC_OFFSET + 2
    &&& bytes[CFF_MAGIC_OFFSET as int] == 0xEDu8
    &&& bytes[CFF_MAGIC_OFFSET + 1] == 0x05u8
}

/// Cheap detection of a CFF container: the ASCII prologue at offset 0 and the `0x05ED`
/// stub magic at 0x400 (little-endian).
pub fn sniff(bytes: &[u8]) -> (r: bool)
    ensures
        r == is_cff(bytes@),
{
    let prologue: &str = "CFF-TRANSLATOR-VERSION";
    let p = prologue.as_bytes();
    proof {
        reveal_strlit("CFF-TRANSLATOR-VERSION");
        vstd::string::is_ascii_spec_bytes(prologue);
        assert(p@ =~= cff_prologue());
    }
    if bytes.len() < p.len() {
        return false;
    }
    let mut i: usize = 0;
    while i < p.len()
        invariant
            i <= p@.len() <= bytes@.len(),
            p@ == cff_prologue(),
            forall|k: int| 0 <= k < i ==> bytes@[k] == p@[k],
        decreases p@.len() - i,
    {
        if bytes[i] != p[i] {
            proof {
                assert(bytes@.take(p@.len() as int)[i as int] != cff_prologue()[i as int]);
            }
            return false;
        }
        i = i + 1;
    }
    proof {
        assert(bytes@.take(p@.len() as int) =~= cff_prologue());
    }
    bytes.len() >= CFF_MAGIC_OFFSET + 2 && bytes[CFF_MAGIC_OFFSET] == 0xED && bytes[CFF_MAGIC_OFFSET
        + 1] == 0x05
}

} // verus!

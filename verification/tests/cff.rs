use sterngate::cff::sniff;

fn synthetic_cff_header() -> Vec<u8> {
    let mut v = b"CFF-TRANSLATOR-VERSION:02.01.03\nDATE:15.9.2026\nFINGERPRINT:1.2.3.4\nCFF:TEST\nLANGUAGE:ORIGINAL\n".to_vec();
    v.resize(0x400, 0);
    v.extend_from_slice(&[0xED, 0x05, 0xEA, 0x07, 0x09, 0x0F]);
    v.resize(0x1000, 0xFF);
    v
}

#[test]
fn sniff_recognises_prologue_and_stub_magic() {
    assert!(sniff(&synthetic_cff_header()));
    assert!(!sniff(b"CFF-TRANSLATOR-VERSION"));
    let mut wrong_magic = synthetic_cff_header();
    wrong_magic[0x400] = 0x00;
    assert!(!sniff(&wrong_magic));
    assert!(!sniff(&[0xEA; 4096]));
    assert!(!sniff(&[]));
}

#[test]
fn sniff_needs_exact_magic_bytes() {
    let mut v = synthetic_cff_header();
    v.truncate(0x401);
    assert!(!sniff(&v));
    let mut w = synthetic_cff_header();
    w[0x401] = 0x06;
    assert!(!sniff(&w));
}

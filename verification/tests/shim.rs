use liblzma::wasm_shim::{
    rust_lzma_wasm_shim_memchr, rust_lzma_wasm_shim_memcmp, rust_lzma_wasm_shim_memcpy,
    rust_lzma_wasm_shim_memset,
};

#[test]
fn memcmp_signs() {
    assert_eq!(rust_lzma_wasm_shim_memcmp(b"abc", b"abc"), 0);
    assert_eq!(rust_lzma_wasm_shim_memcmp(b"abc", b"abd"), -1);
    assert_eq!(rust_lzma_wasm_shim_memcmp(b"abd", b"abc"), 1);
    assert_eq!(rust_lzma_wasm_shim_memcmp(b"", b""), 0);
    assert_eq!(rust_lzma_wasm_shim_memcmp(b"\xff", b"\x01"), 1);
    assert_eq!(rust_lzma_wasm_shim_memcmp(b"ab", b"abc"), -1);
}

#[test]
fn memchr_finds_first() {
    assert_eq!(rust_lzma_wasm_shim_memchr(b"hello", b'l' as i32), Some(2));
    assert_eq!(rust_lzma_wasm_shim_memchr(b"hello", b'z' as i32), None);
    assert_eq!(rust_lzma_wasm_shim_memchr(b"hello", 0x100 + b'o' as i32), Some(4));
    assert_eq!(rust_lzma_wasm_shim_memchr(b"", 0), None);
}

#[test]
fn memset_fills() {
    let mut buf = [1u8; 4];
    rust_lzma_wasm_shim_memset(&mut buf, 0x1ab);
    assert_eq!(buf, [0xab; 4]);
}

#[test]
fn memcpy_copies() {
    let mut buf = [0u8; 3];
    rust_lzma_wasm_shim_memcpy(&mut buf, b"xyz");
    assert_eq!(&buf, b"xyz");
}

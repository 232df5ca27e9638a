use sis_kernel::arch::aarch64::io::{port_read_u32, port_read_u8, uart_read, uart_rx_ready, uart_tx_full};
use sis_kernel::arch::aarch64::neon_simd::{init, NeonTensorOps};

#[test]
fn uart_flag_decoding() {
    assert!(uart_rx_ready(0));
    assert!(!uart_rx_ready(0x10));
    assert!(uart_tx_full(0x20));
    assert!(!uart_tx_full(0x10));
    assert_eq!(uart_read(0x00, b'A'), Some(b'A'));
    assert_eq!(uart_read(0x30, b'A'), None);
    assert_eq!(port_read_u8(0x3F8), 0);
    assert_eq!(port_read_u32(0xCF8), 0);
}

#[test]
fn neon_capabilities() {
    let info = NeonTensorOps::get_simd_info();
    assert_eq!(info.vector_width_bits, 128);
    assert_eq!(info.fp16_elements_per_vector, 8);
    assert_eq!(info.fp32_elements_per_vector, 4);
    assert!(info.supports_fma && info.supports_fp16);
    assert_eq!(info.max_throughput_gflops, 64);
    assert_eq!(init(0x0001_0000), Ok(()));
    assert_eq!(init(0x0000_0000), Err("FP16 NEON support not available"));
    assert_eq!(init(0x000F_0000), Ok(()));
}

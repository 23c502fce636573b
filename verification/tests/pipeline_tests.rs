use qrcode::bold::{Bold, BoldOption, BoldTrait, CodeOption, OutputType};
use qrcode::ecc::build_codewords;
use qrcode::encode::encode_data;
use qrcode::error::{EcLevel, QrError};
use qrcode::gf256::{gf_mul, gen_poly, rs_remainder};
use qrcode::mask::{format_bits, version_bits, mask_scores, select_mask};
use qrcode::matrix::build_matrix;
use qrcode::mode::{classify, select_version, payload_bits, alnum_val, Mode};
use qrcode::pipeline::{encode_matrix, generate};
use qrcode::qr::{QrBold, QrOptions};
use qrcode::render::parse_color;
use qrcode::tables::{block_info, data_codewords, total_codewords, side_len, remainder_bits};

fn default_options() -> BoldOption {
    BoldOption {
        module_size: 3,
        quiet_zone: 4,
        foreground: "000000".to_string(),
        background: "FFFFFF".to_string(),
    }
}

#[test]
fn classify_modes() {
    assert_eq!(classify(&b"0123456789".to_vec()), Mode::Numeric);
    assert_eq!(classify(&b"HELLO WORLD".to_vec()), Mode::Alphanumeric);
    assert_eq!(classify(&b"hello".to_vec()), Mode::Byte);
    assert_eq!(classify(&b"".to_vec()), Mode::Numeric);
    assert_eq!(classify(&b"A1$%*+-./:".to_vec()), Mode::Alphanumeric);
}

#[test]
fn alnum_values() {
    assert_eq!(alnum_val(b'0'), 0);
    assert_eq!(alnum_val(b'9'), 9);
    assert_eq!(alnum_val(b'A'), 10);
    assert_eq!(alnum_val(b'H'), 17);
    assert_eq!(alnum_val(b' '), 36);
    assert_eq!(alnum_val(b':'), 44);
}

#[test]
fn payload_bit_counts() {
    // numeric: groups of 3 digits cost 10 bits, remainders 7 and 4
    assert_eq!(payload_bits(Mode::Numeric, 7), 24);
    assert_eq!(payload_bits(Mode::Numeric, 8), 27);
    assert_eq!(payload_bits(Mode::Numeric, 9), 30);
    // alphanumeric: pairs cost 11 bits, a single remainder 6
    assert_eq!(payload_bits(Mode::Alphanumeric, 11), 61);
    // byte: 8 bits each
    assert_eq!(payload_bits(Mode::Byte, 5), 40);
}

#[test]
fn hello_world_selects_alphanumeric_version_1() {
    let (mode, version) = select_version(&b"HELLO WORLD".to_vec(), EcLevel::Medium).unwrap();
    assert_eq!(mode, Mode::Alphanumeric);
    assert_eq!(version, 1);
}

#[test]
fn version_never_decreases_when_appending() {
    let mut prev = 1u8;
    let mut payload: Vec<u8> = Vec::new();
    for i in 0..500 {
        payload.push(b'A' + (i % 26) as u8);
        let (_, v) = select_version(&payload, EcLevel::Quartile).unwrap();
        assert!(v >= prev);
        prev = v;
    }
}

#[test]
fn interleaved_count_matches_table_for_every_pair() {
    for version in 1..=40u8 {
        let total = total_codewords(version);
        for ec in [EcLevel::Low, EcLevel::Medium, EcLevel::Quartile, EcLevel::High] {
            let (e, g1, d1, g2, d2) = block_info(version, ec);
            let data = g1 as usize * d1 as usize + g2 as usize * d2 as usize;
            let eccw = (g1 as usize + g2 as usize) * e as usize;
            assert_eq!(data + eccw, total);
            assert_eq!(data, data_codewords(version, ec));
        }
    }
}

#[test]
fn interleaved_stream_has_exact_capacity() {
    let payload = b"INTERLEAVE CHECK 123".to_vec();
    for ec in [EcLevel::Low, EcLevel::Medium, EcLevel::Quartile, EcLevel::High] {
        let (mode, version) = select_version(&payload, ec).unwrap();
        let data_cw = encode_data(&payload, mode, version, ec);
        assert_eq!(data_cw.len(), data_codewords(version, ec));
        let stream = build_codewords(&data_cw, version, ec);
        assert_eq!(stream.len(), total_codewords(version));
    }
}

#[test]
fn gf256_known_products() {
    // alpha * 0x80 wraps through the reduction polynomial
    assert_eq!(gf_mul(0x80, 2), 0x1D);
    assert_eq!(gf_mul(2, 0x80), 0x1D);
    assert_eq!(gf_mul(1, 0xAB), 0xAB);
    assert_eq!(gf_mul(0, 0xAB), 0);
    // closure under multiplication spot check: a*(b*c) == (a*b)*c
    assert_eq!(gf_mul(7, gf_mul(11, 13)), gf_mul(gf_mul(7, 11), 13));
}

#[test]
fn generator_polynomial_shape() {
    // degree-2 generator: (x + 1)(x + 2) = x^2 + 3x + 2
    assert_eq!(gen_poly(2), vec![1, 3, 2]);
    let g = gen_poly(10);
    assert_eq!(g.len(), 11);
    assert_eq!(g[0], 1);
}

#[test]
fn rs_remainder_length_and_zero_data() {
    let g = gen_poly(7);
    let rem = rs_remainder(&vec![0, 0, 0, 0], &g);
    assert_eq!(rem, vec![0, 0, 0, 0, 0, 0, 0]);
    let rem2 = rs_remainder(&b"hello".to_vec(), &g);
    assert_eq!(rem2.len(), 7);
}

#[test]
fn format_and_version_information() {
    // level M with mask 0 encodes as the fixed XOR pattern itself
    assert_eq!(format_bits(EcLevel::Medium, 0), 0x5412);
    // the published format strings of the other levels with mask 0
    assert_eq!(format_bits(EcLevel::Low, 0), 0x77C4);
    assert_eq!(format_bits(EcLevel::Quartile, 0), 0x355F);
    assert_eq!(format_bits(EcLevel::High, 0), 0x1689);
    // the published version information string for version 7
    assert_eq!(version_bits(7), 0x07C94);
}

#[test]
fn mask_selection_regression_hello_world() {
    let payload = b"HELLO WORLD".to_vec();
    let (mode, version) = select_version(&payload, EcLevel::Medium).unwrap();
    let data_cw = encode_data(&payload, mode, version, EcLevel::Medium);
    let stream = build_codewords(&data_cw, version, EcLevel::Medium);
    let m = build_matrix(version, &stream);
    let scores = mask_scores(&m);
    assert_eq!(scores, vec![390, 513, 480, 557, 525, 526, 598, 468]);
    let (_, id) = select_mask(&m, &scores);
    assert_eq!(id, 0);
}

#[test]
fn generated_matrix_side_matches_version() {
    let payload = b"SIDE LENGTH CHECK".to_vec();
    let (_, version) = select_version(&payload, EcLevel::Medium).unwrap();
    let m = encode_matrix(&payload, EcLevel::Medium).unwrap();
    assert_eq!(m.size, side_len(version));
    assert_eq!(m.size, 17 + 4 * version as usize);
}

#[test]
fn boundary_at_version_40_high() {
    // 1273 bytes is exactly the version-40 High capacity in byte mode
    let at_capacity = vec![0x7Au8; 1273];
    let (mode, version) = select_version(&at_capacity, EcLevel::High).unwrap();
    assert_eq!(mode, Mode::Byte);
    assert_eq!(version, 40);
    let one_more = vec![0x7Au8; 1274];
    assert_eq!(
        select_version(&one_more, EcLevel::High).unwrap_err(),
        QrError::CapacityExceeded
    );
    let mut opts = default_options();
    opts.module_size = 1;
    opts.quiet_zone = 0;
    let buf = generate(&at_capacity, EcLevel::High, &opts).unwrap();
    assert_eq!(buf.width, 177);
    assert_eq!(
        generate(&one_more, EcLevel::High, &opts).unwrap_err(),
        QrError::CapacityExceeded
    );
}

#[test]
fn renderer_exact_dimensions_without_border() {
    let mut opts = default_options();
    opts.module_size = 1;
    opts.quiet_zone = 0;
    let buf = generate(&b"HELLO WORLD".to_vec(), EcLevel::Medium, &opts).unwrap();
    assert_eq!(buf.width, 21);
    assert_eq!(buf.height, 21);
    assert_eq!(buf.pixels.len(), 21 * 21 * 3);
}

#[test]
fn renderer_scales_and_adds_quiet_zone() {
    let opts = default_options();
    let buf = generate(&b"HELLO WORLD".to_vec(), EcLevel::Medium, &opts).unwrap();
    // (21 + 2*4) * 3 pixels on each side
    assert_eq!(buf.width, 87);
    assert_eq!(buf.height, 87);
    assert_eq!(buf.pixels.len(), 87 * 87 * 3);
    // the top-left pixel lies in the quiet zone: background white
    assert_eq!(&buf.pixels[0..3], &[0xFF, 0xFF, 0xFF]);
}

#[test]
fn identical_calls_give_identical_buffers() {
    let opts = default_options();
    let payload = b"IDEMPOTENT".to_vec();
    let a = generate(&payload, EcLevel::Medium, &opts).unwrap();
    let b = generate(&payload, EcLevel::Medium, &opts).unwrap();
    assert_eq!(a.width, b.width);
    assert_eq!(a.height, b.height);
    assert_eq!(a.pixels, b.pixels);
}

#[test]
fn color_parsing() {
    let c = parse_color("ff8000").unwrap();
    assert_eq!((c.red, c.green, c.blue), (255, 128, 0));
    let d = parse_color("00A1b2").unwrap();
    assert_eq!((d.red, d.green, d.blue), (0, 0xA1, 0xB2));
    assert_eq!(parse_color("zzzzzz").unwrap_err(), QrError::InvalidColor);
    assert_eq!(parse_color("12345").unwrap_err(), QrError::InvalidColor);
    assert_eq!(parse_color("1234567").unwrap_err(), QrError::InvalidColor);
}

#[test]
fn error_variants_for_bad_options() {
    let payload = b"ERR".to_vec();
    let mut bad_color = default_options();
    bad_color.foreground = "nothex".to_string();
    assert_eq!(
        generate(&payload, EcLevel::Medium, &bad_color).unwrap_err(),
        QrError::InvalidColor
    );
    let mut zero_size = default_options();
    zero_size.module_size = 0;
    assert_eq!(
        generate(&payload, EcLevel::Medium, &zero_size).unwrap_err(),
        QrError::InvalidDimensions
    );
    let mut huge = default_options();
    huge.quiet_zone = 1_000_000_000;
    assert_eq!(
        generate(&payload, EcLevel::Medium, &huge).unwrap_err(),
        QrError::InvalidOption
    );
    // colors are validated first: with several faults the color error wins
    let mut both_bad = default_options();
    both_bad.foreground = "nothex".to_string();
    both_bad.module_size = 0;
    assert_eq!(
        generate(&payload, EcLevel::Medium, &both_bad).unwrap_err(),
        QrError::InvalidColor
    );
}

#[test]
fn bold_generator_end_to_end() {
    let bold = <Bold as BoldTrait>::new(default_options());
    assert_eq!(bold.get_option().module_size, 3);
    assert_eq!(bold.get_option().quiet_zone, 4);
    let code = CodeOption {
        data: "Hello World".to_string(),
        output: "output.png".to_string(),
        output_type: OutputType::PNG,
    };
    let buf = bold.generate(code, None).unwrap();
    assert!(buf.width > 0 && buf.pixels.len() == buf.width * buf.height * 3);
    let code2 = CodeOption {
        data: "Hello World".to_string(),
        output: "output.jpg".to_string(),
        output_type: OutputType::JPG,
    };
    let override_opt = BoldOption {
        module_size: 1,
        quiet_zone: 0,
        foreground: "000000".to_string(),
        background: "FFFFFF".to_string(),
    };
    let buf2 = bold.generate(code2, Some(override_opt)).unwrap();
    assert_eq!(buf2.width, 21);
}

#[test]
fn qr_options_and_encode() {
    let o = QrOptions::new(5, "abc".to_string());
    assert_eq!(o.get_version(), 5);
    assert_eq!(o.get_value(), "abc");
    let q = QrBold::new(QrOptions::new(2, "data".to_string()));
    assert_eq!(q.get_options().get_version(), 2);
    assert_eq!(q.encode(), "QR Code: data");
}

#[test]
fn every_version_builds_a_resolved_matrix() {
    // force each version in turn with a byte payload at that version's
    // Low-level capacity, and check the matrix side each time
    for version in 1..=40u8 {
        let dcw = data_codewords(version, EcLevel::Low);
        let n = if version <= 9 { dcw - 2 } else { dcw - 3 };
        let payload = vec![0x7Au8; n];
        let (mode, v) = select_version(&payload, EcLevel::Low).unwrap();
        assert_eq!(mode, Mode::Byte);
        assert_eq!(v, version);
        let m = encode_matrix(&payload, EcLevel::Low).unwrap();
        assert_eq!(m.size, 17 + 4 * version as usize);
        // the data area is exactly the codeword bits plus the remainder bits
        let data_modules = m.func.iter().filter(|f| !**f).count();
        assert_eq!(
            data_modules,
            8 * total_codewords(version) + remainder_bits(version)
        );
    }
}

#[test]
fn hello_world_quartile_data_codewords() {
    // the classic worked example: "HELLO WORLD", version 1, level Q
    let payload = b"HELLO WORLD".to_vec();
    let (mode, version) = select_version(&payload, EcLevel::Quartile).unwrap();
    assert_eq!(mode, Mode::Alphanumeric);
    assert_eq!(version, 1);
    let data_cw = encode_data(&payload, mode, version, EcLevel::Quartile);
    assert_eq!(
        data_cw,
        vec![32, 91, 11, 120, 209, 114, 220, 77, 67, 64, 236, 17, 236]
    );
}

#[test]
fn function_patterns_survive_masking() {
    let m = encode_matrix(&b"HELLO WORLD".to_vec(), EcLevel::Medium).unwrap();
    // finder corners are dark rings
    assert_eq!(m.get(0, 0), 2);
    assert_eq!(m.get(0, 20), 2);
    assert_eq!(m.get(20, 0), 2);
    // separator below the top-left finder is light
    assert_eq!(m.get(7, 0), 1);
    // the timing row alternates, dark on even columns
    for c in 8..13usize {
        assert_eq!(m.get(6, c), if c % 2 == 0 { 2 } else { 1 });
    }
    // the always-dark module at (4 * version + 9, 8)
    assert_eq!(m.get(13, 8), 2);
}

#[test]
fn hello_world_quartile_ec_codewords() {
    // the published error-correction codewords of the same worked example
    let data = vec![32u8, 91, 11, 120, 209, 114, 220, 77, 67, 64, 236, 17, 236];
    let g = gen_poly(13);
    assert_eq!(
        rs_remainder(&data, &g),
        vec![168, 72, 22, 82, 217, 54, 156, 0, 46, 15, 180, 122, 16]
    );
}

#[test]
fn codeword_blocks_are_divisible_by_generator() {
    // appending the error-correction codewords to a block's data must give
    // a polynomial divisible by the generator: the remainder becomes zero
    let payload = b"HELLO WORLD".to_vec();
    let (mode, version) = select_version(&payload, EcLevel::Quartile).unwrap();
    let data_cw = encode_data(&payload, mode, version, EcLevel::Quartile);
    let (e, _, _, _, _) = block_info(version, EcLevel::Quartile);
    let g = gen_poly(e as usize);
    let ec = rs_remainder(&data_cw, &g);
    assert_eq!(ec.len(), e as usize);
    let mut whole = data_cw.clone();
    whole.extend_from_slice(&ec);
    assert_eq!(rs_remainder(&whole, &g), vec![0u8; e as usize]);
}

#[test]
fn default_bold_options() {
    let d = BoldOption::default();
    assert_eq!(d.module_size, 3);
    assert_eq!(d.quiet_zone, 4);
    assert_eq!(d.foreground, "000000");
    assert_eq!(d.background, "FFFFFF");
}

#[test]
fn error_messages() {
    assert_eq!(
        QrError::CapacityExceeded.message(),
        "payload exceeds version 40 capacity"
    );
    assert_eq!(QrError::InvalidColor.message(), "color failed validation");
}

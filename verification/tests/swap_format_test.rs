use stellarlib::swap_format::{
    encode_base32, format_printable_amount, format_stellar_address, format_xlm_amount,
    write_decimal_digits_u64, write_integer_u64, BufferWriter, FormatError,
};


#[test]
fn test_format_xlm_amount_whole_numbers() {
    let mut buffer = [0u8; 32];

    // Test 1000000000 stroops = 100 XLM
    let written_len = {
        let mut writer = BufferWriter::new(&mut buffer);
        format_xlm_amount(1000000000, &mut writer).unwrap();
        writer.pos
    };

    assert_eq!(core::str::from_utf8(&buffer[..written_len]).unwrap(), "100");

    // Test 0 XLM
    let mut buffer = [0u8; 32];
    let written_len = {
        let mut writer = BufferWriter::new(&mut buffer);
        format_xlm_amount(0, &mut writer).unwrap();
        writer.pos
    };
    assert_eq!(core::str::from_utf8(&buffer[..written_len]).unwrap(), "0");

    // Test 10000000 stroops = 1 XLM exactly
    let mut buffer = [0u8; 32];
    let written_len = {
        let mut writer = BufferWriter::new(&mut buffer);
        format_xlm_amount(10000000, &mut writer).unwrap();
        writer.pos
    };
    assert_eq!(core::str::from_utf8(&buffer[..written_len]).unwrap(), "1");
}

#[test]
fn test_format_xlm_amount_with_decimals() {
    let mut buffer = [0u8; 32];

    // Test 12345678 stroops = 1.2345678 XLM
    let written_len = {
        let mut writer = BufferWriter::new(&mut buffer);
        format_xlm_amount(12345678, &mut writer).unwrap();
        writer.pos
    };

    assert_eq!(
        core::str::from_utf8(&buffer[..written_len]).unwrap(),
        "1.2345678"
    );

    // Test minimal amount 1 stroop = 0.0000001 XLM
    let mut buffer = [0u8; 32];
    let written_len = {
        let mut writer = BufferWriter::new(&mut buffer);
        format_xlm_amount(1, &mut writer).unwrap();
        writer.pos
    };
    assert_eq!(
        core::str::from_utf8(&buffer[..written_len]).unwrap(),
        "0.0000001"
    );

    // Test 9999999 stroops = 0.9999999 XLM
    let mut buffer = [0u8; 32];
    let written_len = {
        let mut writer = BufferWriter::new(&mut buffer);
        format_xlm_amount(9999999, &mut writer).unwrap();
        writer.pos
    };
    assert_eq!(
        core::str::from_utf8(&buffer[..written_len]).unwrap(),
        "0.9999999"
    );
}

#[test]
fn test_format_xlm_amount_trailing_zeros() {
    let mut buffer = [0u8; 32];

    // Test 15000000 stroops = 1.5 XLM (trailing zeros removed)
    let written_len = {
        let mut writer = BufferWriter::new(&mut buffer);
        format_xlm_amount(15000000, &mut writer).unwrap();
        writer.pos
    };

    assert_eq!(core::str::from_utf8(&buffer[..written_len]).unwrap(), "1.5");

    // Test 10000 stroops = 0.001 XLM (trailing zeros removed)
    let mut buffer = [0u8; 32];
    let written_len = {
        let mut writer = BufferWriter::new(&mut buffer);
        format_xlm_amount(10000, &mut writer).unwrap();
        writer.pos
    };
    assert_eq!(
        core::str::from_utf8(&buffer[..written_len]).unwrap(),
        "0.001"
    );

    // Test 100 stroops = 0.00001 XLM
    let mut buffer = [0u8; 32];
    let written_len = {
        let mut writer = BufferWriter::new(&mut buffer);
        format_xlm_amount(100, &mut writer).unwrap();
        writer.pos
    };
    assert_eq!(
        core::str::from_utf8(&buffer[..written_len]).unwrap(),
        "0.00001"
    );

    // Test 5000000 stroops = 0.5 XLM
    let mut buffer = [0u8; 32];
    let written_len = {
        let mut writer = BufferWriter::new(&mut buffer);
        format_xlm_amount(5000000, &mut writer).unwrap();
        writer.pos
    };
    assert_eq!(core::str::from_utf8(&buffer[..written_len]).unwrap(), "0.5");
}

#[test]
fn test_format_stellar_address_valid_keys() {
    // Valid account GA3D5KRYM6CB7OWQ6TWYRR3Z4T7GNZLKERYNZGGA5SOAOPIFY6YQHES5
    let public_key_1: [u8; 32] = [
        0x36, 0x3e, 0xaa, 0x38, 0x67, 0x84, 0x1f, 0xba, 0xd0, 0xf4, 0xed, 0x88, 0xc7, 0x79,
        0xe4, 0xfe, 0x66, 0xe5, 0x6a, 0x24, 0x70, 0xdc, 0x98, 0xc0, 0xec, 0x9c, 0x07, 0x3d,
        0x05, 0xc7, 0xb1, 0x03,
    ];
    let mut buffer = [0u8; 56];
    let result = format_stellar_address(&public_key_1, &mut buffer);
    assert_eq!(result, Ok(56));
    assert_eq!(
        core::str::from_utf8(&buffer).unwrap(),
        "GA3D5KRYM6CB7OWQ6TWYRR3Z4T7GNZLKERYNZGGA5SOAOPIFY6YQHES5"
    );

    // Valid account GA7QYNF7SOWQ3GLR2BGMZEHXAVIRZA4KVWLTJJFC7MGXUA74P7UJVSGZ
    let public_key_2: [u8; 32] = [
        0x3f, 0x0c, 0x34, 0xbf, 0x93, 0xad, 0x0d, 0x99, 0x71, 0xd0, 0x4c, 0xcc, 0x90, 0xf7,
        0x05, 0x51, 0x1c, 0x83, 0x8a, 0xad, 0x97, 0x34, 0xa4, 0xa2, 0xfb, 0x0d, 0x7a, 0x03,
        0xfc, 0x7f, 0xe8, 0x9a,
    ];
    let mut buffer = [0u8; 56];
    let result = format_stellar_address(&public_key_2, &mut buffer);
    assert_eq!(result, Ok(56));
    assert_eq!(
        core::str::from_utf8(&buffer).unwrap(),
        "GA7QYNF7SOWQ3GLR2BGMZEHXAVIRZA4KVWLTJJFC7MGXUA74P7UJVSGZ"
    );

    // All zeros public key
    let public_key_3 = [0u8; 32];
    let mut buffer = [0u8; 56];
    let result = format_stellar_address(&public_key_3, &mut buffer);
    assert_eq!(result, Ok(56));
    // Should produce a valid base32 address starting with GA (G for public key, A for first zero byte)
    assert!(core::str::from_utf8(&buffer).unwrap().starts_with("GA"));

    // All 0xFF public key
    let public_key_4 = [0xFF; 32];
    let mut buffer = [0u8; 56];
    let result = format_stellar_address(&public_key_4, &mut buffer);
    assert_eq!(result, Ok(56));
    // The first byte after version will be 0xFF, which when combined with version byte
    // will produce a different pattern. Let's just verify it's valid base32
    let address = core::str::from_utf8(&buffer).unwrap();
    assert!(address.starts_with("G")); // All Stellar public keys start with G
    for &byte in &buffer {
        assert!(b"ABCDEFGHIJKLMNOPQRSTUVWXYZ234567".contains(&byte));
    }
}

#[test]
fn test_format_stellar_address_buffer_validation() {
    let public_key = [0u8; 32];

    // Test with exact buffer size (56 bytes)
    let mut buffer = [0u8; 56];
    assert_eq!(format_stellar_address(&public_key, &mut buffer), Ok(56));

    // Test with larger buffer
    let mut buffer = [0u8; 100];
    assert_eq!(format_stellar_address(&public_key, &mut buffer), Ok(56));

    // Test with insufficient buffer
    let mut buffer = [0u8; 55];
    assert_eq!(
        format_stellar_address(&public_key, &mut buffer),
        Err(FormatError::BufferTooSmall)
    );

    let mut buffer = [0u8; 10];
    assert_eq!(
        format_stellar_address(&public_key, &mut buffer),
        Err(FormatError::BufferTooSmall)
    );
}

#[test]
fn test_format_printable_amount() {
    let mut buffer = [0u8; 64];

    // Test 1 XLM (10000000 stroops)
    let amount_bytes = 10000000u128.to_be_bytes();
    let result = format_printable_amount(&amount_bytes, &mut buffer).unwrap();
    assert_eq!(result, "1 XLM");

    // Test 123.456789 XLM
    let amount_bytes = 1234567890u128.to_be_bytes();
    let result = format_printable_amount(&amount_bytes, &mut buffer).unwrap();
    assert_eq!(result, "123.456789 XLM");

    // Test 0 XLM
    let amount_bytes = 0u128.to_be_bytes();
    let result = format_printable_amount(&amount_bytes, &mut buffer).unwrap();
    assert_eq!(result, "0 XLM");

    // Test maximum practical amount (1 billion XLM)
    let amount_bytes = 10_000_000_000_000_000u128.to_be_bytes();
    let result = format_printable_amount(&amount_bytes, &mut buffer).unwrap();
    assert_eq!(result, "1000000000 XLM");

    // Test small amounts with trailing zeros removed
    let amount_bytes = 15000000u128.to_be_bytes();
    let result = format_printable_amount(&amount_bytes, &mut buffer).unwrap();
    assert_eq!(result, "1.5 XLM");

    // Test minimal amount (1 stroop)
    let amount_bytes = 1u128.to_be_bytes();
    let result = format_printable_amount(&amount_bytes, &mut buffer).unwrap();
    assert_eq!(result, "0.0000001 XLM");

    // Test various amounts
    let amount_bytes = 9999999u128.to_be_bytes();
    let result = format_printable_amount(&amount_bytes, &mut buffer).unwrap();
    assert_eq!(result, "0.9999999 XLM");

    let amount_bytes = 10000001u128.to_be_bytes();
    let result = format_printable_amount(&amount_bytes, &mut buffer).unwrap();
    assert_eq!(result, "1.0000001 XLM");

    let amount_bytes = 100000000u128.to_be_bytes();
    let result = format_printable_amount(&amount_bytes, &mut buffer).unwrap();
    assert_eq!(result, "10 XLM");

    // Test maximum i64 value (9,223,372,036,854,775,807 stroops)
    let amount_bytes = (i64::MAX as u128).to_be_bytes();
    let result = format_printable_amount(&amount_bytes, &mut buffer).unwrap();
    assert_eq!(result, "922337203685.4775807 XLM");

    // Test value just above i64 max (should fail)
    let amount_bytes = ((i64::MAX as u128) + 1).to_be_bytes();
    let result = format_printable_amount(&amount_bytes, &mut buffer);
    assert_eq!(result, Err(FormatError::InvalidInput));

    // Test much larger value (should also fail)
    let amount_bytes = u128::MAX.to_be_bytes();
    let result = format_printable_amount(&amount_bytes, &mut buffer);
    assert_eq!(result, Err(FormatError::InvalidInput));
}

#[test]
fn test_buffer_writer() {
    // Test write_byte
    let mut buffer = [0u8; 10];
    {
        let mut writer = BufferWriter::new(&mut buffer);

        assert_eq!(writer.write_byte(b'A'), Ok(()));
        assert_eq!(writer.pos, 1);
    }
    assert_eq!(buffer[0], b'A');

    // Test write_bytes
    {
        let mut writer = BufferWriter::new(&mut buffer);
        writer.write_byte(b'A').unwrap(); // Restore state
        assert_eq!(writer.write_bytes(b"BCD"), Ok(()));
        assert_eq!(writer.pos, 4);
    }
    assert_eq!(&buffer[..4], b"ABCD");

    // Test push_str
    {
        let mut writer = BufferWriter::new(&mut buffer);
        writer.write_bytes(b"ABCD").unwrap(); // Restore state
        assert_eq!(writer.push_str("EF"), Ok(()));
        assert_eq!(writer.pos, 6);
    }
    assert_eq!(&buffer[..6], b"ABCDEF");

    // Test buffer overflow
    {
        let mut writer = BufferWriter::new(&mut buffer);
        writer.write_bytes(b"ABCDEF").unwrap(); // Restore state
        assert_eq!(
            writer.write_bytes(b"12345"),
            Err(FormatError::BufferTooSmall)
        );
        assert_eq!(writer.pos, 6); // Position unchanged on error
    }

    // Test writing a text
    {
        let mut writer = BufferWriter::new(&mut buffer);
        writer.write_bytes(b"ABCDEF").unwrap(); // Restore state
        writer.push_str("GH").unwrap();
        assert_eq!(writer.pos, 8);
    }
    assert_eq!(&buffer[..8], b"ABCDEFGH");
}

#[test]
fn test_encode_base32() {
    // Test encoding all zeros
    let input = [0u8; 35];
    let mut output = [0u8; 56];
    assert_eq!(encode_base32(&input, &mut output), Ok(()));

    // Verify output is valid base32
    for &byte in &output {
        assert!(b"ABCDEFGHIJKLMNOPQRSTUVWXYZ234567".contains(&byte));
    }

    // Test with insufficient output buffer
    let mut small_output = [0u8; 55];
    assert_eq!(
        encode_base32(&input, &mut small_output),
        Err(FormatError::BufferTooSmall)
    );
}

#[test]
fn test_format_xlm_amount_max_value() {
    let mut buffer = [0u8; 32];

    // Test maximum i64 value (9,223,372,036,854,775,807 stroops)
    let written_len = {
        let mut writer = BufferWriter::new(&mut buffer);
        format_xlm_amount(i64::MAX as u64, &mut writer).unwrap();
        writer.pos
    };
    assert_eq!(
        core::str::from_utf8(&buffer[..written_len]).unwrap(),
        "922337203685.4775807"
    );
}

#[test]
fn test_write_integer_u64() {
    let mut buffer = [0u8; 30];

    // Test zero
    let mut writer = BufferWriter::new(&mut buffer);
    write_integer_u64(0, &mut writer).unwrap();
    assert_eq!(writer.pos, 1);
    assert_eq!(&buffer[..1], b"0");

    // Test small number
    let mut writer = BufferWriter::new(&mut buffer);
    write_integer_u64(123, &mut writer).unwrap();
    assert_eq!(writer.pos, 3);
    assert_eq!(&buffer[..3], b"123");

    // Test large number
    let mut writer = BufferWriter::new(&mut buffer);
    write_integer_u64(9876543210, &mut writer).unwrap();
    assert_eq!(writer.pos, 10);
    assert_eq!(&buffer[..10], b"9876543210");

    // Test maximum i64 value
    let mut buffer = [0u8; 30];
    let mut writer = BufferWriter::new(&mut buffer);
    write_integer_u64(i64::MAX as u64, &mut writer).unwrap();
    assert_eq!(writer.pos, 19);
    assert_eq!(&buffer[..19], b"9223372036854775807");

    // Test maximum u64 value (for completeness, though not used in XLM)
    let mut buffer = [0u8; 30];
    let mut writer = BufferWriter::new(&mut buffer);
    write_integer_u64(u64::MAX, &mut writer).unwrap();
    assert_eq!(writer.pos, 20);
    assert_eq!(&buffer[..20], b"18446744073709551615");
}

#[test]
fn test_write_decimal_digits_u64() {
    let mut buffer = [0u8; 30];

    // Test with trailing zeros (should be removed)
    let mut writer = BufferWriter::new(&mut buffer);
    write_decimal_digits_u64(5000000, 7, &mut writer).unwrap();
    assert_eq!(writer.pos, 1);
    assert_eq!(&buffer[..1], b"5");

    // Test with all significant digits
    let mut writer = BufferWriter::new(&mut buffer);
    write_decimal_digits_u64(1234567, 7, &mut writer).unwrap();
    assert_eq!(writer.pos, 7);
    assert_eq!(&buffer[..7], b"1234567");

    // Test with some trailing zeros
    let mut writer = BufferWriter::new(&mut buffer);
    write_decimal_digits_u64(1230000, 7, &mut writer).unwrap();
    assert_eq!(writer.pos, 3);
    assert_eq!(&buffer[..3], b"123");

    // Test zero (all digits are zero)
    let mut writer = BufferWriter::new(&mut buffer);
    write_decimal_digits_u64(0, 7, &mut writer).unwrap();
    assert_eq!(writer.pos, 0); // No digits written when all are zero

    // Test single digit
    let mut writer = BufferWriter::new(&mut buffer);
    write_decimal_digits_u64(1, 7, &mut writer).unwrap();
    assert_eq!(writer.pos, 7);
    assert_eq!(&buffer[..7], b"0000001");

    // Test edge case: max places exceeded
    let mut writer = BufferWriter::new(&mut buffer);
    assert_eq!(
        write_decimal_digits_u64(123, 8, &mut writer),
        Err(FormatError::InvalidInput)
    );
}

use sha1_digest::{
    add_state, bit_length, circular_left_shift, expand_u32_blocks, format_bytes_to_u8_blocks,
    format_state, sha1, transform_block, u8_blocks_to_u32_blocks, Sha1Error, State,
    MESSAGE_LEN_LIMIT,
};

fn st(a: u32, b: u32, c: u32, d: u32, e: u32) -> State {
    State { a, b, c, d, e }
}

fn hash_str(s: &str) -> String {
    sha1(s.as_bytes()).unwrap()
}

#[test]
fn circular_left_shift_test() {
    assert_eq!(circular_left_shift(0x67452301, 5), 0xE8A4602C);
}

#[test]
fn add_state_test() {
    assert_eq!(add_state(st(1, 2, 3, 4, 5), st(1, 2, 3, 4, 5)), st(2, 4, 6, 8, 10))
}

#[test]
fn transform_block_test() {
    let block = vec![
        825307520, 0, 0, 0, 0, 0, 0, 0, 0, 0, 0, 0, 0, 0, 0, 24, 1650615040, 0, 48, 3301230080,
        0, 96, 2307492865, 48, 3301230272, 320018435, 0, 384, 640036870, 240, 3621248259,
        1280073820, 1296910849, 1536, 2560147672, 320019395, 1600091151, 825327857, 320018435,
        6336, 1903171681, 3840, 2105397309, 3301311908, 1566387221, 24768, 2594116938,
        572695826, 1229710577, 320343827, 825328625, 1600058575, 68328980, 62976, 1329972175,
        1281382796, 2324542810, 825724145, 3135392938, 573196770, 3855505269, 830537457,
        2104948525, 824789489, 2263767383, 983040, 2110796157, 4147389685, 1563170141, 6340608,
        2668972698, 581243810, 1841480015, 403644179, 11694592, 314090835, 3140965421,
        16124416, 3966403430, 1365777661,
    ];
    let initial_state = st(0x67452301, 0xEFCDAB89, 0x98BADCFE, 0x10325476, 0xC3D2E1F0);
    let state = add_state(transform_block(block, initial_state), initial_state);
    assert_eq!(state, st(0x6216F8A7, 0x5FD5BB3D, 0x5F22B6F9, 0x958CDEDE, 0x3FC086C2))
}

#[test]
fn sha1_test() {
    {
        let input = String::from("111");
        let result = sha1(input.as_bytes());
        match result {
            Ok(hash) => assert_eq!(hash, "6216F8A75FD5BB3D5F22B6F9958CDEDE3FC086C2"),
            Err(e) => panic!("{:?}", e),
        }
    }
    {
        // Each word is rendered with eight digits: the fifth word here is
        // 0x0192D284.
        let input = String::from("1234567890123456789012345678901234567890123456789012345678901234567890123456789012345678901234567890");
        let result = sha1(input.as_bytes());
        match result {
            Ok(hash) => assert_eq!(hash, "FECFD28BBC9345891A66D7C1B8FF46E60192D284"),
            Err(e) => panic!("{:?}", e),
        }
    }
    {
        let input = String::from("12345678901234567890123456789012345678901234567890123456789012345678901234567890123456789012345678901234567890123456789012345678901234567890");
        let result = sha1(input.as_bytes());
        match result {
            Ok(hash) => assert_eq!(hash, "F0026E50BEA5E90DD113D933312A8A6C7FB06F7B"),
            Err(e) => panic!("{:?}", e),
        }
    }
    {
        let input = String::from("你好");
        let result = sha1(input.as_bytes());
        match result {
            Ok(hash) => assert_eq!(hash, "440EE0853AD1E99F962B63E459EF992D7C211722"),
            Err(e) => panic!("{:?}", e),
        }
    }
    {
        let input = "1234567890qwertyuiopasdfghjklzxcvbnm".repeat(33);
        let result = sha1(input.as_bytes());
        match result {
            Ok(hash) => assert_eq!(hash, "F44A816E8E7FEDCF53145D11C2C1DCAF5543F8AF"),
            Err(e) => panic!("{:?}", e),
        }
    }
}

#[test]
fn sha1_of_empty_input() {
    assert_eq!(hash_str(""), "DA39A3EE5E6B4B0D3255BFEF95601890AFD80709");
}

#[test]
fn sha1_of_abc() {
    assert_eq!(hash_str("abc"), "A9993E364706816ABA3E25717850C26C9CD0D89D");
}

#[test]
fn sha1_of_versioned_blob() {
    assert_eq!(
        hash_str("blob 16\0what is up, doc?"),
        "BD9DBF5AAE1A3862DD1526723246B20206E5FC37"
    );
}

#[test]
fn sha1_of_two_block_standard_vector() {
    assert_eq!(
        hash_str("abcdbcdecdefdefgefghfghighijhijkijkljklmklmnlmnomnopnopq"),
        "84983E441C3BD26EBAAE4AA1F95129E5E54670F1"
    );
}

#[test]
fn digest_is_forty_uppercase_hex_digits() {
    for len in [0usize, 1, 3, 55, 56, 63, 64, 65, 100, 119, 120, 1000] {
        let input: Vec<u8> = (0..len).map(|i| (i * 7 + 3) as u8).collect();
        let hash = sha1(&input).unwrap();
        assert_eq!(hash.len(), 40);
        assert!(hash.chars().all(|c| c.is_ascii_digit() || ('A'..='F').contains(&c)));
    }
}

#[test]
fn digest_is_deterministic() {
    let input = "The quick brown fox jumps over the lazy dog".as_bytes().to_vec();
    let first = sha1(&input).unwrap();
    let second = sha1(&input.clone()).unwrap();
    assert_eq!(first, second);
    assert_eq!(first, "2FD4E1C67A2D28FCED849EE1BB76E7391B93EB12");
}

#[test]
fn flipping_one_byte_changes_digest() {
    let corpus = [
        "111".as_bytes().to_vec(),
        "The quick brown fox jumps over the lazy dog".as_bytes().to_vec(),
        "1234567890qwertyuiopasdfghjklzxcvbnm".repeat(5).into_bytes(),
    ];
    for input in corpus.iter() {
        let original = sha1(input).unwrap();
        for pos in [0, input.len() / 2, input.len() - 1] {
            let mut changed = input.clone();
            changed[pos] ^= 0x01;
            assert_ne!(sha1(&changed).unwrap(), original);
        }
    }
    assert_eq!(
        hash_str("The quick brown fox jumps over the lazy cog"),
        "DE9F2C7FD25E1B3AFAD3E85A0BD17D9B100DB4B3"
    );
}

#[test]
fn padding_adds_one_block_below_fifty_six() {
    for len in [0usize, 1, 55, 64, 119, 128 + 55] {
        let input = vec![0x61u8; len];
        let blocks = format_bytes_to_u8_blocks(&input).unwrap();
        assert_eq!(blocks.len(), len / 64 + 1, "length {}", len);
        assert!(blocks.iter().all(|b| b.len() == 64));
    }
}

#[test]
fn padding_adds_two_blocks_from_fifty_six() {
    for len in [56usize, 57, 63, 120, 127, 128 + 56] {
        let input = vec![0x61u8; len];
        let blocks = format_bytes_to_u8_blocks(&input).unwrap();
        assert_eq!(blocks.len(), len / 64 + 2, "length {}", len);
        assert!(blocks.iter().all(|b| b.len() == 64));
    }
}

#[test]
fn padding_layout_of_short_message() {
    let blocks = format_bytes_to_u8_blocks("abc".as_bytes()).unwrap();
    assert_eq!(blocks.len(), 1);
    let b = &blocks[0];
    assert_eq!(&b[0..3], "abc".as_bytes());
    assert_eq!(b[3], 0x80);
    assert!(b[4..56].iter().all(|&x| x == 0));
    assert_eq!(&b[56..64], &[0, 0, 0, 0, 0, 0, 0, 24]);
}

#[test]
fn padding_of_empty_message() {
    let blocks = format_bytes_to_u8_blocks(&[]).unwrap();
    assert_eq!(blocks.len(), 1);
    let mut expected = vec![0u8; 64];
    expected[0] = 0x80;
    assert_eq!(blocks[0], expected);
}

#[test]
fn padding_layout_with_length_in_extra_block() {
    let input = vec![0xFFu8; 60];
    let blocks = format_bytes_to_u8_blocks(&input).unwrap();
    assert_eq!(blocks.len(), 2);
    assert!(blocks[0][0..60].iter().all(|&x| x == 0xFF));
    assert_eq!(&blocks[0][60..64], &[0x80, 0, 0, 0]);
    assert!(blocks[1][0..56].iter().all(|&x| x == 0));
    assert_eq!(&blocks[1][56..64], &[0, 0, 0, 0, 0, 0, 0x01, 0xE0]);
}

#[test]
fn padding_keeps_full_blocks() {
    let input: Vec<u8> = (0..130u32).map(|i| i as u8).collect();
    let blocks = format_bytes_to_u8_blocks(&input).unwrap();
    assert_eq!(blocks.len(), 3);
    assert_eq!(blocks[0], input[0..64].to_vec());
    assert_eq!(blocks[1], input[64..128].to_vec());
    assert_eq!(&blocks[2][0..2], &[128, 129]);
    assert_eq!(blocks[2][2], 0x80);
    assert_eq!(&blocks[2][56..64], &[0, 0, 0, 0, 0, 0, 0x04, 0x10]);
}

#[test]
fn length_overflow_is_reported() {
    let limit = MESSAGE_LEN_LIMIT as usize;
    assert_eq!(bit_length(limit), Err(Sha1Error::LengthOverflow));
    assert_eq!(bit_length(usize::MAX), Err(Sha1Error::LengthOverflow));
    assert_eq!(bit_length(limit - 1), Ok(0xFFFF_FFFF_FFFF_FFF8));
    assert_eq!(bit_length(3), Ok(24));
    assert_eq!(bit_length(0), Ok(0));
}

#[test]
fn words_are_big_endian() {
    let mut block = vec![0u8; 64];
    block[0] = 0x01;
    block[1] = 0x02;
    block[2] = 0x03;
    block[3] = 0x04;
    block[60] = 0xAA;
    block[63] = 0x55;
    let words = u8_blocks_to_u32_blocks(vec![block]);
    assert_eq!(words.len(), 1);
    assert_eq!(words[0].len(), 16);
    assert_eq!(words[0][0], 0x01020304);
    assert_eq!(words[0][15], 0xAA000055);
    assert!(words[0][1..15].iter().all(|&w| w == 0));
}

#[test]
fn schedule_uses_xor_and_rotation() {
    let mut words = vec![0u32; 16];
    words[0] = 0x8000_0001;
    words[2] = 0x0000_0003;
    let expanded = expand_u32_blocks(vec![words.clone()]);
    assert_eq!(expanded.len(), 1);
    let w = &expanded[0];
    assert_eq!(w.len(), 80);
    assert_eq!(&w[0..16], &words[..]);
    // W16 = rotl(W13 ^ W8 ^ W2 ^ W0, 1)
    assert_eq!(w[16], 0x0000_0005);
    // W18 = rotl(W15 ^ W10 ^ W4 ^ W2, 1)
    assert_eq!(w[18], 0x0000_0006);
    for i in 16..80 {
        assert_eq!(w[i], (w[i - 3] ^ w[i - 8] ^ w[i - 14] ^ w[i - 16]).rotate_left(1));
    }
}

#[test]
fn rotation_moves_high_bits_to_low() {
    assert_eq!(circular_left_shift(0x8000_0001, 1), 0x0000_0003);
    assert_eq!(circular_left_shift(0x1234_5678, 30), 0x048D_159E);
    assert_eq!(circular_left_shift(0xF000_0000, 31), 0x7800_0000);
}

#[test]
fn add_state_wraps_modulo_two_to_thirty_two() {
    assert_eq!(
        add_state(st(0xFFFF_FFFF, 0x8000_0000, 0, 1, 7), st(1, 0x8000_0000, 0, 0xFFFF_FFFF, 9)),
        st(0, 0, 0, 0, 16)
    );
}

#[test]
fn state_is_zero_padded_per_word() {
    assert_eq!(
        format_state(st(0, 1, 0xABCDEF, 0x0F00_0000, 0xFFFF_FFFF)),
        "000000000000000100ABCDEF0F000000FFFFFFFF"
    );
}

use scrut::gen_utils::password::{gen_password, CHARSET};
use scrut::gen_utils::rand::gen_randint;
use scrut::gen_utils::sha256::{gen_checksums, gen_sha256, hex_encode};
use scrut::generate::{
    generate, generation_error, i32_to_string, str2enum, GenerateError, GenerationItemType,
};
use sha2::Digest;

#[test]
fn password_test() {
    const LEN: usize = 10;
    let password = gen_password(LEN);
    assert_eq!(password.len(), LEN);
    assert!(password.bytes().any(|ch| CHARSET.contains(&ch)));
}

#[test]
fn password_every_char_from_charset() {
    let password = gen_password(200);
    assert_eq!(password.len(), 200);
    assert!(password.bytes().all(|ch| CHARSET.contains(&ch)));
    assert_eq!(gen_password(0), "");
}

#[test]
fn random_test() {
    let i = gen_randint(1..100);
    assert!(0 < i && i < 100);
}

#[test]
fn randint_stays_in_range() {
    for _ in 0..200 {
        let v = gen_randint(-3..2);
        assert!(-3 <= v && v < 2);
    }
    assert_eq!(gen_randint(7..8), 7);
}

#[test]
fn test_sha() {
    let hash1 = gen_sha256("hello, world!");
    let hash2 = gen_sha256("SHA256 Unit Tests");
    assert_ne!(hash1, hash2);
    assert_eq!(hash1.len(), 64);
    assert_eq!(hash2.len(), 64);
}

#[test]
fn sha256_known_digests() {
    assert_eq!(
        gen_sha256(""),
        "e3b0c44298fc1c149afbf4c8996fb92427ae41e4649b934ca495991b7852b855"
    );
    assert_eq!(
        gen_sha256("abc"),
        "ba7816bf8f01cfea414140de5dae2223b00361a396177a9cb410ff61f20015ad"
    );
    let expected = hex::encode(sha2::Sha256::digest("hello, world!".as_bytes()));
    assert_eq!(gen_sha256("hello, world!"), expected);
}

#[test]
fn hex_encoding_matches_hex_crate() {
    let data: Vec<u8> = vec![0, 1, 15, 16, 127, 128, 254, 255];
    assert_eq!(hex_encode(&data), hex::encode(&data));
    assert_eq!(hex_encode(&data), "00010f107f80feff");
    assert_eq!(hex_encode(&[]), "");
}

#[test]
fn checksum_listing_one_line_per_file() {
    let files: Vec<(String, Vec<u8>)> = vec![
        ("a.zip".to_string(), b"abc".to_vec()),
        ("dir/b.exe".to_string(), Vec::new()),
    ];
    let listing = gen_checksums(&files);
    assert_eq!(
        listing,
        "ba7816bf8f01cfea414140de5dae2223b00361a396177a9cb410ff61f20015ad  a.zip\n\
         e3b0c44298fc1c149afbf4c8996fb92427ae41e4649b934ca495991b7852b855  dir/b.exe\n"
    );
    assert_eq!(gen_checksums(&Vec::new()), "");
}

#[test]
fn i32_to_string_matches_std() {
    for v in [0, 7, -7, 10, 99, -100, 123456, i32::MAX, i32::MIN] {
        assert_eq!(i32_to_string(v), v.to_string());
    }
}

#[test]
fn generation_item_from_name() {
    assert!(matches!(
        str2enum("password", Some(12), None, false, None),
        GenerationItemType::Password(12)
    ));
    assert!(matches!(
        str2enum("randint", None, Some(1..5), false, None),
        GenerationItemType::RandInt(r) if r == (1..5)
    ));
    assert!(matches!(str2enum("randfloat", None, None, true, None), GenerationItemType::RandFloat));
    assert!(matches!(
        str2enum("sha256", None, None, false, Some("x".to_string())),
        GenerationItemType::Sha256(c) if c == "x"
    ));
    assert!(matches!(str2enum("checksum", None, None, false, None), GenerationItemType::Checksum));
    assert_eq!(generation_error("password", &Some(12), &None, false, &None), None);
    assert_eq!(generation_error("checksum", &None, &None, false, &None), None);
}

#[test]
fn generation_item_errors() {
    assert_eq!(
        generation_error("password", &None, &Some(1..5), true, &None),
        Some(GenerateError::MissingLength)
    );
    assert_eq!(
        generation_error("randint", &Some(3), &None, true, &None),
        Some(GenerateError::MissingIntRange)
    );
    assert_eq!(
        generation_error("randfloat", &None, &Some(1..5), false, &None),
        Some(GenerateError::MissingFloatRange)
    );
    assert_eq!(
        generation_error("sha256", &None, &None, false, &None),
        Some(GenerateError::MissingContent)
    );
    let e = generation_error("uuid", &Some(3), &None, false, &None).unwrap();
    assert_eq!(e, GenerateError::UnknownItem("uuid".to_string()));
    assert_eq!(e.message(), "Unknown type of item: uuid");
    assert_eq!(
        GenerateError::MissingLength.message(),
        "Argument 'len' is required if the item specified as 'password'"
    );
}

#[test]
fn generate_each_item() {
    let p = generate(GenerationItemType::Password(16)).unwrap();
    assert_eq!(p.len(), 16);
    assert!(p.bytes().all(|ch| CHARSET.contains(&ch)));
    let n: i32 = generate(GenerationItemType::RandInt(-5..-4)).unwrap().parse().unwrap();
    assert_eq!(n, -5);
    assert_eq!(
        generate(GenerationItemType::Sha256("abc".to_string())).unwrap(),
        "ba7816bf8f01cfea414140de5dae2223b00361a396177a9cb410ff61f20015ad"
    );
    assert!(generate(GenerationItemType::RandFloat).is_none());
    assert!(generate(GenerationItemType::Checksum).is_none());
}

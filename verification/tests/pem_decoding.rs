use easy_tokio_rustls::pem::{bytes_equal, close_block, decode_pem, PemDecoder, MAX_PEM_SIZE};
use easy_tokio_rustls::EasyTlsError;

fn block_text(label: &str, body_lines: &[&str]) -> String {
    let mut text = format!("-----BEGIN {}-----\n", label);
    for line in body_lines {
        text.push_str(line);
        text.push('\n');
    }
    text.push_str(&format!("-----END {}-----\n", label));
    text
}

#[test]
fn empty_text_yields_no_blocks() {
    let blocks = decode_pem(b"").unwrap();
    assert!(blocks.is_empty());
}

#[test]
fn text_without_markers_yields_no_blocks() {
    let blocks = decode_pem(b"just some text\nand another line\n").unwrap();
    assert!(blocks.is_empty());
}

#[test]
fn single_block_is_decoded() {
    let text = block_text("CERTIFICATE", &["aGVsbG8gd29ybGQ="]);
    let blocks = decode_pem(text.as_bytes()).unwrap();
    assert_eq!(blocks.len(), 1);
    assert_eq!(blocks[0].label, b"CERTIFICATE".to_vec());
    assert_eq!(blocks[0].payload, b"hello world".to_vec());
}

#[test]
fn payload_is_the_decoding_not_the_body() {
    let text = block_text("DATA", &["AAEC"]);
    let blocks = decode_pem(text.as_bytes()).unwrap();
    assert_eq!(blocks[0].payload, vec![0u8, 1u8, 2u8]);
    assert_ne!(blocks[0].payload, b"AAEC".to_vec());
}

#[test]
fn body_lines_are_joined_without_line_breaks() {
    let text = block_text("DATA", &["aGVs", "bG8g", "d29y", "bGQ="]);
    let blocks = decode_pem(text.as_bytes()).unwrap();
    assert_eq!(blocks.len(), 1);
    assert_eq!(blocks[0].payload, b"hello world".to_vec());
}

#[test]
fn blocks_come_out_in_file_order() {
    let mut text = String::new();
    let bodies = ["Zmlyc3Q=", "c2Vjb25k", "dGhpcmQ="];
    for body in bodies.iter() {
        text.push_str(&block_text("CERTIFICATE", &[body]));
    }
    let blocks = decode_pem(text.as_bytes()).unwrap();
    assert_eq!(blocks.len(), 3);
    assert_eq!(blocks[0].payload, b"first".to_vec());
    assert_eq!(blocks[1].payload, b"second".to_vec());
    assert_eq!(blocks[2].payload, b"third".to_vec());
}

#[test]
fn decoded_blocks_encode_back_to_their_bodies() {
    let bodies = ["Zmlyc3Q=", "c2Vjb25k", "dGhpcmQ=", "AAECAwQFBgcICQ=="];
    let mut text = String::new();
    for body in bodies.iter() {
        text.push_str(&block_text("CERTIFICATE", &[body]));
    }
    let blocks = decode_pem(text.as_bytes()).unwrap();
    assert_eq!(blocks.len(), bodies.len());
    let mut encoded = String::new();
    for block in blocks.iter() {
        encoded.push_str(&base64::encode(&block.payload));
    }
    assert_eq!(encoded, bodies.concat());
}

#[test]
fn free_text_around_blocks_is_skipped() {
    let mut text = String::from("Subject: something\n\n");
    text.push_str(&block_text("CERTIFICATE", &["Zmlyc3Q="]));
    text.push_str("between the blocks\n-----END CERTIFICATE-----\n");
    text.push_str(&block_text("PRIVATE KEY", &["c2Vjb25k"]));
    text.push_str("trailing text");
    let blocks = decode_pem(text.as_bytes()).unwrap();
    assert_eq!(blocks.len(), 2);
    assert_eq!(blocks[0].label, b"CERTIFICATE".to_vec());
    assert_eq!(blocks[1].label, b"PRIVATE KEY".to_vec());
    assert_eq!(blocks[1].payload, b"second".to_vec());
}

#[test]
fn carriage_returns_belong_to_the_line_break() {
    let text = "-----BEGIN DATA-----\r\naGVs\r\nbG8=\r\n-----END DATA-----\r\n";
    let blocks = decode_pem(text.as_bytes()).unwrap();
    assert_eq!(blocks.len(), 1);
    assert_eq!(blocks[0].label, b"DATA".to_vec());
    assert_eq!(blocks[0].payload, b"hello".to_vec());
}

#[test]
fn last_line_needs_no_line_break() {
    let text = "-----BEGIN DATA-----\naGVsbG8=\n-----END DATA-----";
    let blocks = decode_pem(text.as_bytes()).unwrap();
    assert_eq!(blocks.len(), 1);
    assert_eq!(blocks[0].payload, b"hello".to_vec());
}

#[test]
fn empty_body_gives_empty_payload() {
    let text = block_text("DATA", &[]);
    let blocks = decode_pem(text.as_bytes()).unwrap();
    assert_eq!(blocks.len(), 1);
    assert!(blocks[0].payload.is_empty());
}

#[test]
fn label_mismatch_is_an_error() {
    let text = "-----BEGIN CERTIFICATE-----\naGVsbG8=\n-----END PRIVATE KEY-----\n";
    match decode_pem(text.as_bytes()) {
        Err(EasyTlsError::LabelMismatch { index, begin, end }) => {
            assert_eq!(index, 0);
            assert_eq!(begin, b"CERTIFICATE".to_vec());
            assert_eq!(end, b"PRIVATE KEY".to_vec());
        }
        other => panic!("unexpected result: {:?}", other),
    }
}

#[test]
fn label_mismatch_after_good_blocks_names_its_index() {
    let mut text = block_text("CERTIFICATE", &["Zmlyc3Q="]);
    text.push_str(&block_text("CERTIFICATE", &["c2Vjb25k"]));
    text.push_str("-----BEGIN A-----\nAAEC\n-----END B-----\n");
    text.push_str(&block_text("CERTIFICATE", &["dGhpcmQ="]));
    match decode_pem(text.as_bytes()) {
        Err(EasyTlsError::LabelMismatch { index, begin, end }) => {
            assert_eq!(index, 2);
            assert_eq!(begin, b"A".to_vec());
            assert_eq!(end, b"B".to_vec());
        }
        other => panic!("unexpected result: {:?}", other),
    }
}

#[test]
fn nested_begin_is_a_label_mismatch() {
    let text = "-----BEGIN A-----\nAAEC\n-----BEGIN B-----\nAAEC\n-----END B-----\n";
    assert!(matches!(
        decode_pem(text.as_bytes()),
        Err(EasyTlsError::LabelMismatch { index: 0, .. })
    ));
}

#[test]
fn invalid_base64_names_the_block() {
    let mut text = block_text("CERTIFICATE", &["Zmlyc3Q="]);
    text.push_str(&block_text("CERTIFICATE", &["not base64 at all!"]));
    assert!(matches!(
        decode_pem(text.as_bytes()),
        Err(EasyTlsError::InvalidBody { index: 1 })
    ));
}

#[test]
fn unterminated_block_yields_nothing() {
    let mut text = block_text("CERTIFICATE", &["Zmlyc3Q="]);
    text.push_str("-----BEGIN CERTIFICATE-----\nc2Vjb25k\n");
    let blocks = decode_pem(text.as_bytes()).unwrap();
    assert_eq!(blocks.len(), 1);
    assert_eq!(blocks[0].payload, b"first".to_vec());
}

#[test]
fn marker_without_label_is_no_marker() {
    let text = "-----BEGIN -----\nAAEC\n-----END -----\n";
    let blocks = decode_pem(text.as_bytes()).unwrap();
    assert!(blocks.is_empty());
}

#[test]
fn default_limit_is_32_kib() {
    assert_eq!(MAX_PEM_SIZE, 32 * 1024);
    assert_eq!(PemDecoder::new().limit(), 32768);
}

#[test]
fn input_at_the_limit_is_accepted() {
    let text = vec![b'x'; MAX_PEM_SIZE];
    let blocks = PemDecoder::new().decode(&text).unwrap();
    assert!(blocks.is_empty());
}

#[test]
fn input_above_the_limit_is_rejected() {
    let text = vec![b'x'; MAX_PEM_SIZE + 1];
    match PemDecoder::new().decode(&text) {
        Err(EasyTlsError::OversizedInput { size, limit }) => {
            assert_eq!(size, 32769);
            assert_eq!(limit, 32768);
        }
        other => panic!("unexpected result: {:?}", other),
    }
}

#[test]
fn oversized_input_is_rejected_even_with_valid_blocks() {
    let text = block_text("CERTIFICATE", &["Zmlyc3Q="]);
    let decoder = PemDecoder::with_limit(10);
    assert_eq!(decoder.limit(), 10);
    assert!(matches!(
        decoder.decode(text.as_bytes()),
        Err(EasyTlsError::OversizedInput { limit: 10, .. })
    ));
    let wide = PemDecoder::with_limit(text.len());
    assert_eq!(wide.decode(text.as_bytes()).unwrap().len(), 1);
}

#[test]
fn close_block_takes_the_decoder_answer() {
    let good = close_block(b"DATA".to_vec(), base64::decode("AAEC"), 4).unwrap();
    assert_eq!(good.label, b"DATA".to_vec());
    assert_eq!(good.payload, vec![0u8, 1u8, 2u8]);
    let bad = close_block(b"DATA".to_vec(), base64::decode("!"), 4);
    assert!(matches!(bad, Err(EasyTlsError::InvalidBody { index: 4 })));
}

#[test]
fn bytes_equal_compares_contents() {
    assert!(bytes_equal(b"abc", b"abc"));
    assert!(!bytes_equal(b"abc", b"abd"));
    assert!(!bytes_equal(b"abc", b"ab"));
    assert!(bytes_equal(b"", b""));
}

#[test]
fn malformed_pem_errors_are_told_apart_from_the_others() {
    let mismatch = decode_pem(b"-----BEGIN A-----\n-----END B-----\n").unwrap_err();
    assert!(mismatch.is_malformed_pem());
    let body = decode_pem(b"-----BEGIN A-----\n?\n-----END A-----\n").unwrap_err();
    assert!(body.is_malformed_pem());
    let oversized = PemDecoder::with_limit(0).decode(b"x").unwrap_err();
    assert!(!oversized.is_malformed_pem());
    assert!(!EasyTlsError::NoPrivateKey.is_malformed_pem());
    assert!(!EasyTlsError::ResolutionFailure("host".to_string()).is_malformed_pem());
}

#[test]
fn body_without_padding_re_encodes_to_an_equivalent_body() {
    let text = block_text("DATA", &["AAE"]);
    let blocks = decode_pem(text.as_bytes()).unwrap();
    assert_eq!(blocks[0].payload, vec![0u8, 1u8]);
    let encoded = base64::encode(&blocks[0].payload);
    assert_eq!(encoded, "AAE=");
    let again = decode_pem(block_text("DATA", &[encoded.as_str()]).as_bytes()).unwrap();
    assert_eq!(again[0].payload, blocks[0].payload);
}

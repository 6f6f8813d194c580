use pg_query_parser::fingerprint::fingerprint_string;
use pg_query_parser::sha1::digest;

fn hex_of(message: &[u8]) -> String {
    let sum = digest(message);
    assert_eq!(sum.len(), 20);
    fingerprint_string(&sum)[2..].to_string()
}

#[test]
fn sha1_of_the_empty_message() {
    assert_eq!(hex_of(b""), "da39a3ee5e6b4b0d3255bfef95601890afd80709");
}

#[test]
fn sha1_of_abc() {
    assert_eq!(hex_of(b"abc"), "a9993e364706816aba3e25717850c26c9cd0d89d");
}

#[test]
fn sha1_of_a_message_of_two_blocks() {
    assert_eq!(
        hex_of(b"abcdbcdecdefdefgefghfghighijhijkijkljklmklmnlmnomnopnopq"),
        "84983e441c3bd26ebaae4aa1f95129e5e54670f1"
    );
}

#[test]
fn sha1_of_a_sentence() {
    assert_eq!(
        hex_of(b"The quick brown fox jumps over the lazy dog"),
        "2fd4e1c67a2d28fced849ee1bb76e7391b93eb12"
    );
}

#[test]
fn sha1_at_the_padding_boundaries() {
    let bytes: Vec<u8> = (0u8..64).collect();
    assert_eq!(hex_of(&bytes[..55]), "8ae2d46729cfe68ff927af5eec9c7d1b66d65ac2");
    assert_eq!(hex_of(&bytes[..56]), "636e2ec698dac903498e648bd2f3af641d3c88cb");
    assert_eq!(hex_of(&bytes), "c6138d514ffa2135bfce0ed0b8fac65669917ec7");
}

#[test]
fn sha1_of_a_long_message() {
    let bytes = vec![b'a'; 1000];
    assert_eq!(hex_of(&bytes), "291e9a6c66994949b57ba5e650361e98fc36b1ba");
}

#[test]
fn fingerprint_string_marks_the_version() {
    assert_eq!(fingerprint_string(&vec![0x00, 0x0f, 0xa0, 0xff]), "02000fa0ff");
    assert_eq!(fingerprint_string(&Vec::new()), "02");
}

use flate2::read::GzDecoder;
use neutron_star::save_game::SaveGame;
use std::io::Read;

#[test]
fn encoded_files_are_named_and_compressed() {
    let save = SaveGame::new(vec![
        ("world-1".to_string(), "id: 1\n".to_string()),
        ("other".to_string(), String::new()),
    ]);
    let files = save.encoded();
    assert_eq!(files.len(), 2);
    assert_eq!(files[0].0, "world-1.yaml.gz");
    assert_eq!(files[1].0, "other.yaml.gz");
    // the bytes differ from the text: they are a gzip stream
    assert_ne!(files[0].1, b"id: 1\n".to_vec());
    assert_eq!(&files[0].1[..2], &[0x1f, 0x8b]);
    let mut text = String::new();
    GzDecoder::new(&files[0].1[..]).read_to_string(&mut text).unwrap();
    assert_eq!(text, "id: 1\n");
    let mut empty = String::new();
    GzDecoder::new(&files[1].1[..]).read_to_string(&mut empty).unwrap();
    assert_eq!(empty, "");
}

#[test]
fn encoding_is_repeatable() {
    let a = SaveGame::new(vec![("w".to_string(), "abc".to_string())]);
    let b = SaveGame::new(vec![("w".to_string(), "abc".to_string())]);
    assert_eq!(a.encoded(), b.encoded());
    assert_ne!(a.uuidv4, b.uuidv4);
    assert_eq!(a.objects().len(), 1);
}

#[test]
fn empty_save_has_no_files() {
    let s = SaveGame::new(Vec::new());
    assert!(s.encoded().is_empty());
}

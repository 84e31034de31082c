use neural_os::storage::{PersistBlob, PersistentStorage, MAGIC, SLOTS, VERSION};

fn empty_storage() -> PersistentStorage {
    PersistentStorage {
        buffer: [0; SLOTS],
        valid: false,
    }
}

fn bits_hidden(w: &[[f32; 7]; 8]) -> [[u32; 7]; 8] {
    let mut out = [[0u32; 7]; 8];
    for i in 0..8 {
        for j in 0..7 {
            out[i][j] = w[i][j].to_bits();
        }
    }
    out
}

fn bits_output(w: &[f32; 8]) -> [u32; 8] {
    let mut out = [0u32; 8];
    for i in 0..8 {
        out[i] = w[i].to_bits();
    }
    out
}

fn fabs(x: f32) -> f32 {
    if x.is_sign_negative() {
        -x
    } else {
        x
    }
}

#[test]
fn save_load_roundtrip() {
    let mut persist = PersistBlob::empty();
    let mut s = empty_storage();

    let mut w = [[0.0f32; 7]; 8];
    for i in 0..8 {
        for j in 0..7 {
            w[i][j] = (i * 7 + j) as f32 * 0.01;
        }
    }
    let out = [0.1, 0.2, 0.3, 0.4, 0.5, 0.6, 0.7, 0.8f32];

    s.save_weights(&mut persist, &bits_hidden(&w), &bits_output(&out));
    let (loaded_h, loaded_o) = s.load_weights().expect("load_weights returned None");

    for i in 0..8 {
        for j in 0..7 {
            assert!(fabs(f32::from_bits(loaded_h[i][j]) - w[i][j]) < 1e-6);
        }
        assert!(fabs(f32::from_bits(loaded_o[i]) - out[i]) < 1e-6);
    }
}

#[test]
fn clear_invalidates() {
    let mut persist = PersistBlob::empty();
    let mut s = empty_storage();
    let w = [[1.0f32; 7]; 8];
    let out = [1.0f32; 8];
    s.save_weights(&mut persist, &bits_hidden(&w), &bits_output(&out));
    assert!(s.load_weights().is_some());
    s.clear(&mut persist);
    assert!(s.load_weights().is_none());
    assert!(!persist.is_valid());
}

#[test]
fn committed_weights_survive_a_restart() {
    let mut persist = PersistBlob::empty();
    let mut s = empty_storage();
    let w = [[2.5f32; 7]; 8];
    let out = [-1.5f32; 8];
    s.save_weights(&mut persist, &bits_hidden(&w), &bits_output(&out));
    assert!(persist.is_valid());
    assert_eq!(persist.magic, MAGIC);
    assert_eq!(persist.version, VERSION);
    assert_eq!(persist.count, 1);
    let restarted = PersistentStorage::new(&persist);
    assert!(restarted.valid);
    assert_eq!(restarted.buffer, s.buffer);
    let (h, o) = restarted.load_weights().unwrap();
    assert_eq!(h, bits_hidden(&w));
    assert_eq!(o, bits_output(&out));
}

#[test]
fn fresh_image_is_not_valid() {
    let persist = PersistBlob::empty();
    let s = PersistentStorage::new(&persist);
    assert!(!s.valid);
    assert!(s.load_weights().is_none());
}

#[test]
fn tampered_image_is_rejected() {
    let mut persist = PersistBlob::empty();
    let mut s = empty_storage();
    s.buffer[3] = 77;
    s.valid = true;
    s.commit(&mut persist);
    assert!(persist.is_valid());
    persist.words[3] = 78;
    assert!(!persist.is_valid());
    assert!(!PersistentStorage::new(&persist).valid);
}

#[test]
fn checksum_of_zero_words() {
    // c = version ^ count = 0; each step c = (c + 0) * 0x01000193 keeps 0.
    let persist = PersistBlob::empty();
    assert_eq!(persist.checksum_words(), 0);
    let mut p = PersistBlob::empty();
    p.words[71] = 1;
    // only the last step adds 1: (0 + 1) * 0x01000193
    assert_eq!(p.checksum_words(), 0x0100_0193);
}

#[test]
fn commit_counts_writes() {
    let mut persist = PersistBlob::empty();
    let s = empty_storage();
    s.commit(&mut persist);
    s.commit(&mut persist);
    assert_eq!(persist.count, 2);
    assert!(persist.is_valid());
}

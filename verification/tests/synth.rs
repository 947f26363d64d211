use clipboard_log::pass::{read, Decoder};
use clipboard_log::record::LogRecord;
use clipboard_log::synth::{gen_entry, PRINTABLE_MAX, PRINTABLE_MIN};
use rand::SeedableRng;
use rand_xoshiro::Xoshiro256PlusPlus;

#[test]
fn entry_is_an_opcode_a_printable_text_and_a_nul() {
    let mut rng = Xoshiro256PlusPlus::seed_from_u64(7);
    let entry = gen_entry(&mut rng, 200);
    assert_eq!(entry.len(), 202);
    assert_eq!(entry[0], 1);
    assert_eq!(entry[201], 0);
    for &byte in &entry[1..201] {
        assert!(PRINTABLE_MIN <= byte && byte <= PRINTABLE_MAX);
    }
    assert_eq!(PRINTABLE_MIN, 0x21);
    assert_eq!(PRINTABLE_MAX, 0x7E);
}

#[test]
fn entry_of_no_bytes_is_an_empty_text() {
    let mut rng = Xoshiro256PlusPlus::seed_from_u64(1);
    assert_eq!(gen_entry(&mut rng, 0), vec![1, 0]);
}

#[test]
fn entries_follow_the_generator() {
    let mut first = Xoshiro256PlusPlus::seed_from_u64(42);
    let mut second = Xoshiro256PlusPlus::seed_from_u64(42);
    let a = gen_entry(&mut first, 64);
    let b = gen_entry(&mut second, 64);
    assert_eq!(a, b);
    let c = gen_entry(&mut first, 64);
    assert_ne!(a, c);
    let distinct: std::collections::BTreeSet<u8> = a[1..65].iter().copied().collect();
    assert!(distinct.len() > 1);
}

#[test]
fn synthetic_log_decodes_to_its_texts() {
    let lengths = [1usize, 500, 3, 42, 1, 17];
    let mut rng = Xoshiro256PlusPlus::seed_from_u64(lengths.len() as u64);
    let mut log = Vec::new();
    for &len in &lengths {
        log.extend_from_slice(&gen_entry(&mut rng, len));
    }
    let stats = read(&log).unwrap();
    let raw = stats.raw();
    assert_eq!(raw.ops.num_save_texts, lengths.len());
    assert_eq!(raw.total_str_bytes, lengths.iter().sum::<usize>());
    assert_eq!(raw.num_entries, lengths.len());
    assert_eq!(raw.ops.num_deletes, 0);
    assert_eq!(stats.lengths(), &lengths.to_vec());
}

#[test]
fn synthetic_log_is_read_to_its_last_byte() {
    let mut rng = Xoshiro256PlusPlus::seed_from_u64(3);
    let mut log = Vec::new();
    for len in 1..=20 {
        log.extend_from_slice(&gen_entry(&mut rng, len));
    }
    let mut decoder = Decoder::new(&log);
    let mut next_id = 1;
    while let Some(decoded) = decoder.step().unwrap() {
        assert_eq!(
            decoded.record,
            LogRecord::SaveText { length: next_id + 1, sequence_id: next_id }
        );
        next_id += 1;
    }
    assert_eq!(next_id, 21);
    assert_eq!(decoder.cursor(), log.len());
}

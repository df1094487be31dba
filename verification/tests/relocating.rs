use toyos::error::LoadError;
use toyos::image::RelocationRecord;
use toyos::relocation::{
    apply_relocation, apply_relocations, check_relocation, check_relocations,
    compute_patch_value, read_word,
};

fn relative(target_offset: u64, addend: i64) -> RelocationRecord {
    RelocationRecord { kind: 8, target_offset, addend }
}

#[test]
fn patch_value_is_base_plus_addend() {
    assert_eq!(compute_patch_value(0x1000, 0x234), 0x1234);
    assert_eq!(compute_patch_value(0x1000, -1), 0xfff);
    assert_eq!(compute_patch_value(0, 0), 0);
    assert_eq!(compute_patch_value(u64::MAX, i64::MIN), 0x7fff_ffff_ffff_ffff);
    assert_eq!(compute_patch_value(0x8000_0000_0000_0000, i64::MAX), u64::MAX);
}

#[test]
fn patch_value_is_a_64_bit_address() {
    assert_eq!(compute_patch_value(u64::MAX, 1), 0);
    assert_eq!(compute_patch_value(u64::MAX, i64::MAX), 0x7fff_ffff_ffff_fffe);
    assert_eq!(compute_patch_value(0, -1), u64::MAX);
    assert_eq!(compute_patch_value(5, i64::MIN), 0x8000_0000_0000_0005);
}

#[test]
fn supported_record_reads_back() {
    let mut memory = vec![0x55u8; 32];
    let record = relative(9, 0x0102_0304_0506_0708);
    assert_eq!(apply_relocation(&mut memory, 0x1000_0000_0000_0000, &record), Ok(()));
    assert_eq!(read_word(&memory, 9), Some(0x1102_0304_0506_0708));
    assert_eq!(&memory[9..17], &[0x08, 0x07, 0x06, 0x05, 0x04, 0x03, 0x02, 0x11]);
    assert!(memory[..9].iter().all(|b| *b == 0x55));
    assert!(memory[17..].iter().all(|b| *b == 0x55));
}

#[test]
fn record_at_the_end_of_the_buffer() {
    let mut memory = vec![0u8; 16];
    assert_eq!(apply_relocation(&mut memory, 7, &relative(8, 1)), Ok(()));
    assert_eq!(read_word(&memory, 8), Some(8));
    assert_eq!(apply_relocation(&mut memory, 7, &relative(9, 1)), Err(LoadError::MalformedImage));
    assert_eq!(
        apply_relocation(&mut memory, 7, &relative(u64::MAX, 1)),
        Err(LoadError::MalformedImage)
    );
    assert_eq!(read_word(&memory, 8), Some(8));
    assert_eq!(read_word(&memory, 0), Some(0));
    let mut short = vec![0u8; 7];
    assert_eq!(apply_relocation(&mut short, 7, &relative(0, 1)), Err(LoadError::MalformedImage));
    assert_eq!(short, vec![0u8; 7]);
}

#[test]
fn unsupported_record_is_not_applied() {
    let mut memory = vec![0x11u8; 24];
    let record = RelocationRecord { kind: 1, target_offset: 0, addend: 5 };
    assert_eq!(
        apply_relocation(&mut memory, 7, &record),
        Err(LoadError::UnsupportedRelocation)
    );
    assert_eq!(memory, vec![0x11u8; 24]);
    let both = RelocationRecord { kind: 38, target_offset: 100, addend: 5 };
    assert_eq!(check_relocation(&both, 24), Err(LoadError::UnsupportedRelocation));
    assert_eq!(check_relocation(&relative(16, 0), 24), Ok(()));
    assert_eq!(check_relocation(&relative(17, 0), 24), Err(LoadError::MalformedImage));
}

#[test]
fn bad_record_in_front_of_a_good_one_stops_everything() {
    let mut memory = vec![0x22u8; 32];
    let records =
        vec![RelocationRecord { kind: 7, target_offset: 0, addend: 1 }, relative(8, 0x100)];
    assert_eq!(
        apply_relocations(&mut memory, 0x4000, &records),
        Err(LoadError::UnsupportedRelocation)
    );
    assert_eq!(memory, vec![0x22u8; 32]);
    assert_eq!(read_word(&memory, 8), Some(0x2222_2222_2222_2222));
}

#[test]
fn bad_record_behind_good_ones_leaves_nothing_applied() {
    let mut memory = vec![0x33u8; 32];
    let records = vec![
        relative(0, 0x100),
        relative(8, 0x200),
        RelocationRecord { kind: 0, target_offset: 16, addend: 1 },
        relative(24, 0x300),
    ];
    assert_eq!(
        apply_relocations(&mut memory, 0x4000, &records),
        Err(LoadError::UnsupportedRelocation)
    );
    assert_eq!(memory, vec![0x33u8; 32]);
}

#[test]
fn first_bad_record_names_the_error() {
    let unsupported = RelocationRecord { kind: 2, target_offset: 0, addend: 0 };
    let outside = relative(100, 0);
    assert_eq!(check_relocations(&vec![], 0), Ok(()));
    assert_eq!(check_relocations(&vec![relative(0, 0), relative(24, 9)], 32), Ok(()));
    assert_eq!(
        check_relocations(&vec![relative(0, 0), outside, unsupported], 32),
        Err(LoadError::MalformedImage)
    );
    assert_eq!(
        check_relocations(&vec![relative(0, 0), unsupported, outside], 32),
        Err(LoadError::UnsupportedRelocation)
    );
}

#[test]
fn records_are_applied_in_order() {
    let mut memory = vec![0u8; 32];
    let records = vec![relative(0, 0x11), relative(16, 0x22), relative(4, 0x33)];
    assert_eq!(apply_relocations(&mut memory, 0x0101_0101_0101_0100, &records), Ok(()));
    assert_eq!(read_word(&memory, 16), Some(0x0101_0101_0101_0122));
    assert_eq!(read_word(&memory, 4), Some(0x0101_0101_0101_0133));
    assert_eq!(&memory[..4], &[0x11, 0x01, 0x01, 0x01]);
    assert!(memory[24..].iter().all(|b| *b == 0));
    assert!(memory[12..16].iter().all(|b| *b == 0));
}

#[test]
fn read_word_needs_eight_bytes() {
    let memory: Vec<u8> = (1..=9).collect();
    assert_eq!(read_word(&memory, 0), Some(0x0807_0605_0403_0201));
    assert_eq!(read_word(&memory, 1), Some(0x0908_0706_0504_0302));
    assert_eq!(read_word(&memory, 2), None);
    assert_eq!(read_word(&memory, usize::MAX), None);
    assert_eq!(read_word(&memory[..7], 0), None);
}

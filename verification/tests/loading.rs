use mips_sim::loader::{parse_hex_word, read_instructions, LoadError};
use mips_sim::run::{execute_instructions, RunOutcome};

#[test]
fn parses_single_word() {
    assert_eq!(parse_hex_word("20010005".as_bytes()), Some(0x2001_0005));
}

#[test]
fn parses_mixed_case() {
    assert_eq!(parse_hex_word("DeadBeef".as_bytes()), Some(0xdead_beef));
    assert_eq!(parse_hex_word("f".as_bytes()), Some(15));
}

#[test]
fn accepts_leading_zeros() {
    assert_eq!(parse_hex_word("000000001".as_bytes()), Some(1));
}

#[test]
fn rejects_empty_line() {
    assert_eq!(parse_hex_word("".as_bytes()), None);
}

#[test]
fn rejects_non_hex_bytes() {
    assert_eq!(parse_hex_word("20g10005".as_bytes()), None);
    assert_eq!(parse_hex_word("0x20".as_bytes()), None);
    assert_eq!(parse_hex_word("-5".as_bytes()), None);
    assert_eq!(parse_hex_word(" 20010005".as_bytes()), None);
}

#[test]
fn rejects_words_over_32_bits() {
    assert_eq!(parse_hex_word("100000000".as_bytes()), None);
    assert_eq!(parse_hex_word("ffffffff".as_bytes()), Some(0xffff_ffff));
}

#[test]
fn loads_one_word_per_line() {
    let r = read_instructions("20010005\n1021ffff\n".as_bytes());
    assert_eq!(r, Ok(vec![0x2001_0005, 0x1021_ffff]));
}

#[test]
fn skips_blank_lines() {
    let r = read_instructions("\n20010005\n\n1021ffff".as_bytes());
    assert_eq!(r, Ok(vec![0x2001_0005, 0x1021_ffff]));
}

#[test]
fn empty_text_loads_nothing() {
    assert_eq!(read_instructions("".as_bytes()), Ok(Vec::new()));
}

#[test]
fn load_error_names_the_bad_line() {
    let r = read_instructions("20010005\nzz\n1021ffff".as_bytes());
    assert_eq!(r, Err(LoadError::BadLine { index: 1 }));
}

#[test]
fn load_error_counts_blank_lines() {
    let r = read_instructions("\nzz".as_bytes());
    assert_eq!(r, Err(LoadError::BadLine { index: 1 }));
}

#[test]
fn loaded_program_runs() {
    let words = read_instructions("20010005\n".as_bytes()).unwrap();
    match execute_instructions(&words, false, 10) {
        RunOutcome::Halted { machine, .. } => {
            assert_eq!(machine.registers[1], 5);
            assert_eq!(machine.pc, 1);
        }
        _ => panic!("expected a normal halt"),
    }
}

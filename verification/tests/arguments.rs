use mips_sim::args::{process_args, UsageError};

fn argv(parts: &[&str]) -> Vec<String> {
    parts.iter().map(|p| p.to_string()).collect()
}

#[test]
fn filename_alone_disables_trace() {
    let r = process_args(&argv(&["sim", "prog.hex"]));
    assert_eq!(r, Ok(("prog.hex".to_string(), false)));
}

#[test]
fn flag_enables_trace() {
    let r = process_args(&argv(&["sim", "-r", "prog.hex"]));
    assert_eq!(r, Ok(("prog.hex".to_string(), true)));
}

#[test]
fn rejects_flag_without_filename() {
    assert_eq!(process_args(&argv(&["sim", "-r"])), Err(UsageError));
}

#[test]
fn rejects_two_positional_arguments() {
    assert_eq!(process_args(&argv(&["sim", "a.hex", "b.hex"])), Err(UsageError));
}

#[test]
fn rejects_wrong_arity() {
    assert_eq!(process_args(&argv(&["sim"])), Err(UsageError));
    assert_eq!(process_args(&argv(&["sim", "-r", "a.hex", "b.hex"])), Err(UsageError));
}

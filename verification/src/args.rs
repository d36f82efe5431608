//! Command-line classification: decides, from the raw argument list, the
//! instruction filename and whether trace mode is on. Reading the arguments
//! and reporting the usage string are the embedder's business.

use vstd::prelude::*;

verus! {

/// The command line does not have the shape `[-r] <file>`.
#[derive(Clone, Copy, PartialEq, Eq, Structural, Debug)]
pub struct UsageError;

/// The characters of the trace flag, `-r`.
pub open spec fn trace_flag() -> Seq<char> {
    seq!['-', 'r']
}

/// Whether an argument list (program name first) is well-formed: exactly one
/// positional filename, optionally preceded by the trace flag.
pub open spec fn args_ok(args: Seq<String>) -> bool {
    ||| args.len() == 2 && args[1]@ != trace_flag()
    ||| args.len() == 3 && args[1]@ == trace_flag()
}

/// Classifies the command line. `Ok` carries the filename and whether trace
/// mode is on — the flag's presence enables tracing; anything of another
/// arity or shape is a usage error.
pub fn process_args(args: &Vec<String>) -> (r: Result<(String, bool), UsageError>)
    ensures
        r is Ok <==> args_ok(args@),
        args@.len() == 2 && args_ok(args@) ==> r is Ok && r->Ok_0.0@ == args@[1]@ && r->Ok_0.1
            == false,
        args@.len() == 3 && args_ok(args@) ==> r is Ok && r->Ok_0.0@ == args@[2]@ && r->Ok_0.1
            == true,
{
    let n: usize = args.len();
    if n < 2 || n > 3 {
        return Err(UsageError);
    }
    let flag: String = "-r".to_owned();
    proof {
        reveal_strlit("-r");
        assert(flag@ =~= trace_flag());
    }
    let has_flag = args[1] == flag;
    if n == 2 {
        if has_flag {
            Err(UsageError)
        } else {
            Ok((args[1].clone(), false))
        }
    } else {
        if has_flag {
            Ok((args[2].clone(), true))
        } else {
            Err(UsageError)
        }
    }
}

} // verus!

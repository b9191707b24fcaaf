//! Arguments of the command line.

use crate::text;
use crate::text::same_text;
use vstd::prelude::*;

verus! {

/// What the command line asks for.
#[derive(Debug)]
pub struct Args {
    /// Measure steps and report on them.
    pub bench: bool,
    /// Insert barriers at compile time.
    pub static_barriers: bool,
    /// The program to run; without one, the interactive loop.
    pub path: Option<String>,
}

/// Whether an argument is an option.
pub open spec fn is_option(arg: Seq<char>) -> bool {
    arg.len() >= 2 && arg[0] == '-' && arg[1] == '-'
}

/// Place of the first argument, from `i` on, that is no option.
pub open spec fn first_plain(args: Seq<Seq<char>>, i: nat) -> Option<int>
    decreases args.len() - i,
{
    if i >= args.len() {
        None
    } else if !is_option(args[i as int]) {
        Some(i as int)
    } else {
        first_plain(args, i + 1)
    }
}

fn is_opt(arg: &String) -> (r: bool)
    ensures
        r == is_option(arg@),
{
    let s = arg.as_str();
    if s.unicode_len() < 2 {
        false
    } else {
        s.get_char(0) == '-' && s.get_char(1) == '-'
    }
}

/// Reads the arguments, of which the first names the program itself.
pub fn parse_args(args: &Vec<String>) -> (r: Args)
    ensures
        r.bench <==> exists|i: int| 1 <= i < args.len() && (#[trigger] args@[i])@ == "--bench"@,
        r.static_barriers <==> exists|i: int|
            1 <= i < args.len() && (#[trigger] args@[i])@ == "--static-barriers"@,
        match r.path {
            Some(p) => match first_plain(text::texts(args@), 1) {
                Some(k) => p@ == args@[k]@,
                None => false,
            },
            None => first_plain(text::texts(args@), 1) is None,
        },
{
    let mut bench: bool = false;
    let mut static_barriers: bool = false;
    let mut path: Option<String> = None;
    let mut i: usize = 1;
    while i < args.len()
        invariant
            1 <= i,
            bench <==> exists|j: int| 1 <= j < i && j < args.len() && (#[trigger] args@[j])@
                == "--bench"@,
            static_barriers <==> exists|j: int|
                1 <= j < i && j < args.len() && (#[trigger] args@[j])@ == "--static-barriers"@,
            match path {
                Some(p) => match first_plain(text::texts(args@), 1) {
                    Some(k) => p@ == args@[k]@,
                    None => false,
                },
                None => first_plain(text::texts(args@), 1) == first_plain(
                    text::texts(args@),
                    i as nat,
                ),
            },
        decreases args.len() - i,
    {
        let a = &args[i];
        assert(text::texts(args@)[i as int] == a@);
        if same_text(a.as_str(), "--bench") {
            bench = true;
        }
        if same_text(a.as_str(), "--static-barriers") {
            static_barriers = true;
        }
        if path.is_none() && !is_opt(a) {
            path = Some(a.clone());
        }
        i = i + 1;
    }
    Args { bench, static_barriers, path }
}

} // verus!

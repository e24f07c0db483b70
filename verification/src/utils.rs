//! Small helpers: the arguments of the command line, and where a cell lies
//! in space.

use vstd::prelude::*;
use crate::coord::Coord;
use crate::search::{first_index, lemma_first_index_is, lemma_first_index_none};

verus! {

/// Whether `arg` is one of the spellings in `options`.
pub open spec fn is_option(options: Seq<String>, arg: String) -> bool {
    exists|j: int| 0 <= j < options.len() && (#[trigger] options[j])@ == arg@
}

/// The place among `args` of the first argument that is one of `options`.
pub open spec fn option_at(args: Seq<String>, options: Seq<String>) -> Option<int> {
    first_index(args, |a: String| is_option(options, a))
}

fn names_option(options: &Vec<String>, arg: &String) -> (b: bool)
    ensures
        b == is_option(options@, *arg),
{
    let mut j: usize = 0;
    while j < options.len()
        invariant
            j <= options.len(),
            forall|k: int| 0 <= k < j ==> (#[trigger] options@[k])@ != arg@,
        decreases options.len() - j,
    {
        if options[j] == *arg {
            return true;
        }
        j += 1;
    }
    false
}

/// The value given to an option on the command line: the argument that
/// follows the first argument spelled like one of `options`. There is none
/// where no argument is spelled so, or where nothing follows it.
pub fn cli_parameter_arg<'a>(args: &'a Vec<String>, options: &Vec<String>) -> (value: Option<&'a String>)
    ensures
        match option_at(args@, options@) {
            Some(i) => if i + 1 < args@.len() {
                value == Some(&args@[i + 1])
            } else {
                value is None
            },
            None => value is None,
        },
{
    let ghost p = |a: String| is_option(options@, a);
    let mut i: usize = 0;
    while i < args.len()
        invariant
            i <= args.len(),
            p == (|a: String| is_option(options@, a)),
            forall|k: int| 0 <= k < i ==> !p(#[trigger] args@[k]),
        decreases args.len() - i,
    {
        if names_option(options, &args[i]) {
            proof {
                lemma_first_index_is(args@, p, i as int);
            }
            if i + 1 >= args.len() {
                return None;
            }
            return Some(&args[i + 1]);
        }
        i += 1;
    }
    proof {
        lemma_first_index_none(args@, p);
    }
    None
}

/// Where a cell lies in space, in whole units: the grid is the floor, its
/// x axis is the x axis of space, and its y axis runs against the z axis.
pub fn convert_ivec2_to_vec3_plane(v: Coord) -> (at: (i64, i64, i64))
    ensures
        at.0 == v.x,
        at.1 == 0,
        at.2 == -v.y,
{
    (v.x as i64, 0, -(v.y as i64))
}

} // verus!

//! Resolving the path of a program against a session's working directory,
//! with the meaning that `std::path` gives to Unix paths.
use vstd::prelude::*;

use crate::text::{chars_of, push_char, push_str};

verus! {

/// A Unix path is absolute when it starts at the root, `/`.
pub open spec fn is_absolute_path(p: Seq<char>) -> bool {
    p.len() > 0 && p[0] == '/'
}

/// `base` with the relative path `rel` adjoined, as `Path::join` does it on
/// Unix: a `/` goes between them unless `base` is empty or already ends in one.
pub open spec fn joined_path(base: Seq<char>, rel: Seq<char>) -> Seq<char> {
    if base.len() > 0 && base.last() != '/' {
        base + seq!['/'] + rel
    } else {
        base + rel
    }
}

/// The path under which a program is loaded: a relative program path is taken
/// relative to the working directory, when there is one; otherwise the path
/// stays as it is.
pub open spec fn normalized_path(program: Seq<char>, working_dir: Option<Seq<char>>) -> Seq<char> {
    match working_dir {
        Some(wd) => if is_absolute_path(program) {
            program
        } else {
            joined_path(wd, program)
        },
        None => program,
    }
}

/// The path of `program`, taken relative to `working_dir` when it is relative
/// and a working directory is given.
pub fn normalize_path(program: &str, working_dir: Option<&str>) -> (p: String)
    ensures
        p@ == normalized_path(
            program@,
            match working_dir {
                Some(wd) => Some(wd@),
                None => None,
            },
        ),
{
    let prog = chars_of(program);
    let absolute = prog.len() > 0 && prog[0] == '/';
    match working_dir {
        Some(wd) if !absolute => {
            let base = chars_of(wd);
            let mut p = String::new();
            push_str(&mut p, wd);
            if base.len() > 0 && base[base.len() - 1] != '/' {
                push_char(&mut p, '/');
            }
            push_str(&mut p, program);
            p
        },
        _ => {
            let mut p = String::new();
            push_str(&mut p, program);
            p
        },
    }
}

/// Normalizing against an absolute working directory gives an absolute path,
/// so doing it a second time changes nothing.
pub proof fn law_normalize_idempotent(program: Seq<char>, working_dir: Seq<char>)
    requires
        is_absolute_path(working_dir),
    ensures
        is_absolute_path(normalized_path(program, Some(working_dir))),
        normalized_path(normalized_path(program, Some(working_dir)), Some(working_dir))
            == normalized_path(program, Some(working_dir)),
{
    let once = normalized_path(program, Some(working_dir));
    if !is_absolute_path(program) {
        if working_dir.last() != '/' {
            assert(once[0] == (working_dir + seq!['/'] + program)[0]);
        } else {
            assert(once[0] == (working_dir + program)[0]);
        }
    }
}

} // verus!

//! Where the workstation keeps its files: the data folder under the home
//! folder and the folders and files named inside it.

use vstd::prelude::*;
use crate::text::{chars_of, push_chars};

verus! {

/// `base` joined with the relative name `part`, as a path: a separator goes
/// between them unless `base` is empty or already ends with one.
pub open spec fn joined(base: Seq<char>, part: Seq<char>) -> Seq<char> {
    if base.len() == 0 {
        part
    } else if base.last() == '/' {
        base + part
    } else {
        base + seq!['/'] + part
    }
}

/// Join the relative name `part` onto `base`.
pub fn join_path(base: &str, part: &str) -> (r: String)
    ensures
        r@ == joined(base@, part@),
{
    let b = chars_of(base);
    let p = chars_of(part);
    let mut r = String::new();
    push_chars(&mut r, b.as_slice());
    if b.len() > 0 && b[b.len() - 1] != '/' {
        r.push('/');
    }
    push_chars(&mut r, p.as_slice());
    r
}

/// The workstation's data folder, `.hamhawk` under the home folder, or
/// under the working folder when no home folder is known.
pub fn home_data_dir(home: Option<&str>) -> (r: String)
    ensures
        r@ == joined(
            match home {
                Some(h) => h@,
                None => seq!['.'],
            },
            seq!['.', 'h', 'a', 'm', 'h', 'a', 'w', 'k'],
        ),
{
    let name = ".hamhawk";
    proof {
        reveal_strlit(".hamhawk");
        reveal_strlit(".");
    }
    match home {
        Some(h) => join_path(h, name),
        None => join_path(".", name),
    }
}

/// The folder the speech models live in, inside the data folder.
pub fn models_dir(data_dir: &str) -> (r: String)
    ensures
        r@ == joined(data_dir@, seq!['m', 'o', 'd', 'e', 'l', 's']),
{
    proof {
        reveal_strlit("models");
    }
    join_path(data_dir, "models")
}

} // verus!

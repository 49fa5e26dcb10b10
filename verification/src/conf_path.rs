//! Which configuration file to read: the one named on the command line,
//! else the one named in the environment, else the usual one.

use vstd::prelude::*;
use vstd::string::*;
use std::borrow::Cow;

verus! {

/// The path that is read when nothing names another.
pub const DEFAULT_CONF_PATH: &'static str = "/etc/app/app.conf";

/// Whether the argument at `i` is `--conf` and another one follows it.
pub open spec fn names_conf(args: Seq<String>, i: int) -> bool {
    0 <= i && i + 1 < args.len() && args[i]@ == "--conf"@
}

/// Whether `i` is the first place at which `--conf` is followed by another
/// argument.
pub open spec fn first_conf(args: Seq<String>, i: int) -> bool {
    names_conf(args, i) && forall|j: int| 0 <= j < i ==> !names_conf(args, j)
}

/// Whether no `--conf` is followed by another argument.
pub open spec fn no_conf(args: Seq<String>) -> bool {
    forall|j: int| !names_conf(args, j)
}

/// What the choice comes to when a source names `path`: that path, or the
/// error `empty` where it is empty.
pub open spec fn named(
    path: Seq<char>,
    empty: Seq<char>,
    r: Result<Cow<'static, str>, &'static str>,
) -> bool {
    match r {
        Ok(chosen) => path.len() > 0 && chosen@ == path,
        Err(why) => path.len() == 0 && why@ == empty,
    }
}

/// Whether `r` is the right choice for the arguments `args` (the name of the
/// program among them) and the value `env` of `APP_CONF`, if it is set.
pub open spec fn chosen_by(
    args: Seq<String>,
    env: Option<String>,
    r: Result<Cow<'static, str>, &'static str>,
) -> bool {
    if no_conf(args) {
        match env {
            Some(value) => named(value@, "APP_CONF value is empty"@, r),
            None => r is Ok && r->Ok_0@ == DEFAULT_CONF_PATH@,
        }
    } else {
        exists|i: int| first_conf(args, i) && named(
            (#[trigger] args[i + 1])@,
            "Err: empty conf argument"@,
            r,
        )
    }
}

/// The path of the configuration file. The value after the first `--conf`
/// wins; without one the value of `APP_CONF` does; without that the usual
/// path. A value that is there and empty is an error.
pub fn conf_path(args: &Vec<String>, env: Option<String>) -> (r: Result<
    Cow<'static, str>,
    &'static str,
>)
    ensures
        chosen_by(args@, env, r),
{
    let flag = "--conf".to_owned();
    let mut i: usize = 0;
    while i < args.len() && i + 1 < args.len()
        invariant
            i <= args.len(),
            flag@ == "--conf"@,
            forall|j: int| 0 <= j < i ==> !names_conf(args@, j),
        decreases args.len() - i,
    {
        if args[i] == flag {
            assert(first_conf(args@, i as int));
            let path = args[i + 1].clone();
            let r = if path.as_str().is_empty() {
                Err("Err: empty conf argument")
            } else {
                Ok(Cow::Owned(path))
            };
            assert(named(args@[i + 1]@, "Err: empty conf argument"@, r));
            return r;
        }
        i = i + 1;
    }
    assert(no_conf(args@));
    match env {
        Some(value) => {
            if value.as_str().is_empty() {
                Err("APP_CONF value is empty")
            } else {
                Ok(Cow::Owned(value))
            }
        },
        None => Ok(Cow::Borrowed(DEFAULT_CONF_PATH)),
    }
}

} // verus!

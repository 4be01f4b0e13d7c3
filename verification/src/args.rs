//! Command-line arguments and the window that they ask for.
use crate::text::{after_prefix, same, strip_prefix};
use vstd::prelude::*;
use vstd::string::StringExecFns;

verus! {

/// The window to open.
#[derive(Debug)]
pub struct Conf {
    pub window_title: String,
    pub window_width: i32,
    pub window_height: i32,
    /// How many screen refreshes one frame waits for.
    pub swap_interval: Option<i32>,
}

/// The contents of a list of texts.
pub open spec fn texts(s: Seq<String>) -> Seq<Seq<char>> {
    Seq::new(s.len(), |i: int| s[i]@)
}

/// The value of the first argument of the form `name=value`.
pub open spec fn value_of(args: Seq<Seq<char>>, name: Seq<char>) -> Option<Seq<char>>
    decreases args.len(),
{
    if args.len() == 0 {
        None
    } else {
        match after_prefix(args[0], name.push('=')) {
            Some(value) => Some(value),
            None => value_of(args.skip(1), name),
        }
    }
}

/// The truth value that a text stands for, if it stands for one.
pub open spec fn truth(value: Seq<char>) -> Option<bool> {
    if value == "true"@ || value == "1"@ || value == "yes"@ {
        Some(true)
    } else if value == "false"@ || value == "0"@ || value == "no"@ {
        Some(false)
    } else {
        None
    }
}

/// The truth value of argument `name`, and `default` where the arguments give none.
pub open spec fn flag_value(args: Seq<Seq<char>>, name: Seq<char>, default: bool) -> bool {
    match value_of(args, name) {
        Some(value) => match truth(value) {
            Some(b) => b,
            None => default,
        },
        None => default,
    }
}

/// Whether `name` is one of the arguments.
pub fn arg_flag(args: &Vec<String>, name: &str) -> (r: bool)
    ensures
        r == texts(args@).contains(name@),
{
    for i in 0..args.len()
        invariant
            forall|k: int| 0 <= k < i ==> texts(args@)[k] != name@,
    {
        if same(args[i].as_str(), name) {
            assert(texts(args@)[i as int] == name@);
            return true;
        }
    }
    false
}

/// The value of the first argument of the form `name=value`.
pub fn arg_value(args: &Vec<String>, name: &str) -> (r: Option<String>)
    ensures
        match r {
            Some(value) => value_of(texts(args@), name@) == Some(value@),
            None => value_of(texts(args@), name@) is None,
        },
{
    let mut prefix: String = name.to_owned();
    prefix.append("=");
    proof {
        reveal_strlit("=");
        assert(prefix@ =~= name@.push('='));
        assert(texts(args@).skip(0) =~= texts(args@));
    }
    for i in 0..args.len()
        invariant
            prefix@ == name@.push('='),
            value_of(texts(args@), name@) == value_of(texts(args@).skip(i as int), name@),
    {
        let value: Option<String> = strip_prefix(args[i].as_str(), prefix.as_str());
        assert(texts(args@).skip(i as int)[0] == args@[i as int]@);
        assert(texts(args@).skip(i as int).skip(1) =~= texts(args@).skip(i + 1));
        if value.is_some() {
            return value;
        }
    }
    None
}

/// The truth value of argument `name`, and `default` where the arguments give none.
pub fn parse_bool_arg(args: &Vec<String>, name: &str, default: bool) -> (r: bool)
    ensures
        r == flag_value(texts(args@), name@, default),
{
    match arg_value(args, name) {
        Some(value) => {
            let value: &str = value.as_str();
            if same(value, "true") || same(value, "1") || same(value, "yes") {
                true
            } else if same(value, "false") || same(value, "0") || same(value, "no") {
                false
            } else {
                default
            }
        },
        None => default,
    }
}

/// The window to open: 1080 by 608, and in step with the screen only if `--vsync` says so.
pub fn build_conf(args: &Vec<String>) -> (r: Conf)
    ensures
        r.window_title@ == "prpr-monitor"@,
        r.window_width == 1080,
        r.window_height == 608,
        r.swap_interval == Some(
            if flag_value(texts(args@), "--vsync"@, false) {
                1i32
            } else {
                0i32
            },
        ),
{
    let vsync = parse_bool_arg(args, "--vsync", false);
    Conf {
        window_title: "prpr-monitor".to_owned(),
        window_width: 1080,
        window_height: 608,
        swap_interval: Some(
            if vsync {
                1
            } else {
                0
            },
        ),
    }
}

} // verus!

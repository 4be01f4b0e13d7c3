//! Laws of numbers, arguments and labels as text, and of the frame rate.
use crate::args::{flag_value, value_of};
use crate::fps::{frames_per_second, second_of};
use crate::labels::{chart_title, result, status};
use crate::text::{after_prefix, decimal, signed_decimal};
use vstd::prelude::*;

verus! {

/// The number that decimal digits stand for.
pub open spec fn digits_value(text: Seq<char>) -> int
    decreases text.len(),
{
    if text.len() == 0 {
        0
    } else {
        10 * digits_value(text.drop_last()) + (text.last() as int - '0' as int)
    }
}

/// A number in decimal notation reads back as the number. It consists of digits, at least one, and
/// has no leading zero but that of zero itself.
pub proof fn law_numbers_read_back(n: nat)
    ensures
        digits_value(decimal(n)) == n,
        decimal(n).len() >= 1,
        forall|i: int| 0 <= i < decimal(n).len() ==> '0' <= #[trigger] decimal(n)[i] <= '9',
        n > 0 ==> decimal(n)[0] != '0',
    decreases n,
{
    if n < 10 {
        assert(decimal(n).drop_last() =~= Seq::empty());
        assert(digits_value(Seq::<char>::empty()) == 0);
    } else {
        law_numbers_read_back(n / 10);
        assert(decimal(n).drop_last() =~= decimal(n / 10));
        assert forall|i: int| 0 <= i < decimal(n).len() implies '0' <= #[trigger] decimal(n)[i]
            <= '9' by {
            if i < decimal(n).len() - 1 {
                assert(decimal(n)[i] == decimal(n / 10)[i]);
            }
        }
        assert(decimal(n)[0] == decimal(n / 10)[0]);
    }
}

/// A negative number has a minus sign in front of its magnitude, and no other number has one.
pub proof fn law_signs(n: int)
    ensures
        n < 0 ==> signed_decimal(n)[0] == '-' && signed_decimal(n).skip(1) == decimal((-n) as nat),
        n >= 0 ==> signed_decimal(n) == decimal(n as nat),
{
    if n < 0 {
        assert(signed_decimal(n).skip(1) =~= decimal((-n) as nat));
    }
}

/// What is left behind a prefix, put behind the prefix again, is the text; and there is something
/// left of every text that begins with the prefix, and of no other.
pub proof fn law_prefixes_come_off(prefix: Seq<char>, rest: Seq<char>, text: Seq<char>)
    ensures
        after_prefix(prefix + rest, prefix) == Some(rest),
        after_prefix(text, prefix) matches Some(left) ==> prefix + left == text,
        after_prefix(text, prefix) is None <==> !prefix.is_prefix_of(text),
{
    assert((prefix + rest).take(prefix.len() as int) =~= prefix);
    assert((prefix + rest).skip(prefix.len() as int) =~= rest);
    if let Some(left) = after_prefix(text, prefix) {
        assert(prefix + left =~= text);
    }
    if prefix.len() <= text.len() {
        assert(text.take(prefix.len() as int) =~= text.subrange(0, prefix.len() as int));
    }
}

/// The value of an argument is what follows `name=` in the first argument that begins so.
pub proof fn law_the_first_argument_gives_the_value(
    args: Seq<Seq<char>>,
    name: Seq<char>,
    i: int,
    value: Seq<char>,
)
    requires
        0 <= i < args.len(),
        args[i] == name.push('=') + value,
        forall|k: int| 0 <= k < i ==> !name.push('=').is_prefix_of(#[trigger] args[k]),
    ensures
        value_of(args, name) == Some(value),
    decreases args.len(),
{
    let prefix = name.push('=');
    law_prefixes_come_off(prefix, value, args[0]);
    if i > 0 {
        assert(!prefix.is_prefix_of(args[0]));
        let rest = args.skip(1);
        assert forall|k: int| 0 <= k < i - 1 implies !prefix.is_prefix_of(#[trigger] rest[k]) by {
            assert(rest[k] == args[k + 1]);
        }
        law_the_first_argument_gives_the_value(rest, name, i - 1, value);
    }
}

/// There is no value where no argument begins with `name=`.
pub proof fn law_no_argument_no_value(args: Seq<Seq<char>>, name: Seq<char>, default: bool)
    requires
        forall|k: int| 0 <= k < args.len() ==> !name.push('=').is_prefix_of(#[trigger] args[k]),
    ensures
        value_of(args, name) is None,
        flag_value(args, name, default) == default,
    decreases args.len(),
{
    if args.len() > 0 {
        law_prefixes_come_off(name.push('='), Seq::empty(), args[0]);
        assert(!name.push('=').is_prefix_of(args[0]));
        let rest = args.skip(1);
        assert forall|k: int| 0 <= k < rest.len() implies !name.push('=').is_prefix_of(
            #[trigger] rest[k],
        ) by {
            assert(rest[k] == args[k + 1]);
        }
        law_no_argument_no_value(rest, name, default);
    }
}

/// Three words say yes, three say no, and any other value leaves the default as it is.
pub proof fn law_words_for_yes_and_no(args: Seq<Seq<char>>, name: Seq<char>, default: bool)
    requires
        value_of(args, name) is Some,
    ensures
        ({
            let value = value_of(args, name)->0;
            let yes = value == "true"@ || value == "1"@ || value == "yes"@;
            let no = value == "false"@ || value == "0"@ || value == "no"@;
            &&& !(yes && no)
            &&& yes ==> flag_value(args, name, default)
            &&& no ==> !flag_value(args, name, default)
            &&& !yes && !no ==> flag_value(args, name, default) == default
        }),
{
    reveal_strlit("true");
    reveal_strlit("1");
    reveal_strlit("yes");
    reveal_strlit("false");
    reveal_strlit("0");
    reveal_strlit("no");
    assert("true"@.len() == 4 && "1"@.len() == 1 && "yes"@.len() == 3);
    assert("false"@.len() == 5 && "0"@.len() == 1 && "no"@.len() == 2);
    assert("1"@[0] == '1' && "0"@[0] == '0');
}

/// The labels of charts, results and players.
pub proof fn law_labels(
    id: i32,
    name: Seq<char>,
    score: u32,
    percent: Seq<char>,
    full_combo: bool,
    ready: bool,
)
    ensures
        chart_title(id, name) == name + " (#"@ + signed_decimal(id as int) + ")"@,
        result(score, percent, false) == decimal(score as nat) + " ("@ + percent + "%)"@,
        result(score, percent, true) == result(score, percent, false) + " 全连"@,
        status(name, true) == name + ": "@ + "就绪"@,
        status(name, false) == name + ": "@ + "等待中…"@,
{
    assert(result(score, percent, false) =~= decimal(score as nat) + " ("@ + percent + "%)"@);
}

/// A time lies in the whole second that it is rounded to towards zero, as far as 32 bits hold it.
pub proof fn law_seconds_round_towards_zero(time: int)
    requires
        -2_147_483_648_999_999_999 <= time <= 2_147_483_647_999_999_999,
    ensures
        time >= 0 ==> 1_000_000_000 * second_of(time) <= time < 1_000_000_000 * (second_of(time) + 1),
        time < 0 ==> 1_000_000_000 * (second_of(time) - 1) < time <= 1_000_000_000 * second_of(time),
{
}

/// As many frames of a length are counted as fit into a second, and not one more.
pub proof fn law_frames_fit_into_a_second(length: int)
    requires
        length > 0,
    ensures
        frames_per_second(length) * length <= 1_000_000_000,
        1_000_000_000 < (frames_per_second(length) + 1) * length,
{
    let rate = 1_000_000_000int / length;
    assert(0 <= rate <= 1_000_000_000 && rate * length <= 1_000_000_000 && 1_000_000_000 < (rate + 1)
        * length) by (nonlinear_arith)
        requires
            length > 0,
            rate == 1_000_000_000int / length,
    ;
}

/// A frame that takes no time has the highest rate there is, and one that ends before it starts has
/// none; times beyond 32 bits of seconds stay at the end of the range.
pub proof fn law_odd_frames(time: int)
    ensures
        frames_per_second(0) == u32::MAX,
        time < 0 ==> frames_per_second(time) == 0,
        time >= 2_147_483_647_000_000_000 ==> second_of(time) == i32::MAX,
        time <= -2_147_483_648_000_000_000 ==> second_of(time) == i32::MIN,
{
}

} // verus!

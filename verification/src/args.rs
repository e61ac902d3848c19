//! Argument lists: where the options of a command end.

use vstd::prelude::*;

use crate::text;

verus! {

/// Whether the word ends the options: `--` where `at_separator`, and `--command`
/// where `at_command`.
pub open spec fn ends_options(word: Seq<char>, at_separator: bool, at_command: bool) -> bool {
    (at_separator && word == "--"@) || (at_command && word == "--command"@)
}

/// The arguments before the first that ends the options.
pub open spec fn before_end(
    args: Seq<Seq<char>>,
    at_separator: bool,
    at_command: bool,
) -> Seq<Seq<char>>
    decreases args.len(),
{
    if args.len() == 0 || ends_options(args[0], at_separator, at_command) {
        Seq::empty()
    } else {
        seq![args[0]] + before_end(args.skip(1), at_separator, at_command)
    }
}

/// The arguments that stand before the first `--`.
pub open spec fn options_of(args: Seq<Seq<char>>) -> Seq<Seq<char>> {
    before_end(args, true, false)
}

/// How many arguments stand before the first that ends the options.
pub fn option_count(args: &[String], at_separator: bool, at_command: bool) -> (r: usize)
    ensures
        r <= args@.len(),
        args.deep_view().take(r as int) == before_end(
            args.deep_view(),
            at_separator,
            at_command,
        ),
{
    let ghost all = args.deep_view();
    let ghost wanted = before_end(all, at_separator, at_command);
    let mut i: usize = 0;
    assert(all.skip(0) =~= all);
    assert(all.take(0) + wanted =~= wanted);
    while i < args.len()
        invariant
            i <= args.len(),
            all == args.deep_view(),
            wanted == before_end(all, at_separator, at_command),
            all.take(i as int) + before_end(all.skip(i as int), at_separator, at_command) == wanted,
        decreases args.len() - i,
    {
        assert(all.skip(i as int)[0] == args@[i as int]@);
        let word = args[i].as_str();
        if (at_separator && text::same_text(word, "--")) || (at_command && text::same_text(
            word,
            "--command",
        )) {
            assert(all.take(i as int) + Seq::<Seq<char>>::empty() =~= all.take(i as int));
            return i;
        }
        proof {
            let rest = before_end(all.skip(i + 1), at_separator, at_command);
            assert(all.skip(i as int).skip(1) =~= all.skip(i + 1));
            assert(all.take(i as int) + (seq![all[i as int]] + rest) =~= all.take(i + 1) + rest);
        }
        i += 1;
    }
    assert(all.take(i as int) + Seq::<Seq<char>>::empty() =~= all.take(i as int));
    i
}

/// Where nothing ends the options, every argument may be one.
pub proof fn nothing_ends(args: Seq<Seq<char>>)
    ensures
        before_end(args, false, false) == args,
    decreases args.len(),
{
    if args.len() > 0 {
        nothing_ends(args.skip(1));
        assert(seq![args[0]] + args.skip(1) =~= args);
    } else {
        assert(args =~= Seq::<Seq<char>>::empty());
    }
}

/// Nothing behind an end counts.
pub proof fn options_stop_at_the_end(
    options: Seq<Seq<char>>,
    end: Seq<char>,
    taken: Seq<Seq<char>>,
    at_command: bool,
)
    requires
        ends_options(end, true, at_command),
    ensures
        ({
            let seen = before_end(options + seq![end] + taken, true, at_command);
            seen.len() <= options.len() && seen == options.take(seen.len() as int)
        }),
    decreases options.len(),
{
    let all = options + seq![end] + taken;
    if options.len() == 0 {
        assert(all[0] == end);
    } else if !ends_options(options[0], true, at_command) {
        let tail = options.skip(1);
        assert(all.skip(1) =~= tail + seq![end] + taken);
        options_stop_at_the_end(tail, end, taken, at_command);
        let n = before_end(all.skip(1), true, at_command).len() as int;
        assert(options.take(n + 1) =~= seq![options[0]] + tail.take(n));
    } else {
        assert(options.take(0) =~= Seq::<Seq<char>>::empty());
    }
}

} // verus!

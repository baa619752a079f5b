//! The option set: an immutable configuration value computed once from the
//! invocation tokens, plus the classification of tokens into flags and
//! source paths.

use vstd::prelude::*;
use crate::text::str_eq;

verus! {

/// Which lines receive a number prefix.
#[derive(Clone, Copy, Debug, PartialEq, Eq)]
pub enum NumberingMode {
    NoNumbering,
    All,
    NonBlank,
}

/// The display options, fixed before any line is processed.
#[derive(Clone, Copy, Debug, PartialEq, Eq)]
pub struct Options {
    pub numbering_mode: NumberingMode,
    pub show_ends: bool,
    pub squeeze_blank: bool,
    pub show_tabs: bool,
    pub show_nonprinting: bool,
    /// Accepted for compatibility; has no effect on the output.
    pub unbuffered: bool,
}

/// Whether some token of the list is exactly the given one.
pub open spec fn spec_has_token(tokens: Seq<Seq<char>>, t: Seq<char>) -> bool {
    exists|i: int| 0 <= i < tokens.len() && tokens[i] == t
}

/// The recognized flag tokens.
pub open spec fn spec_is_flag(s: Seq<char>) -> bool {
    ||| s == "-n"@
    ||| s == "-b"@
    ||| s == "-e"@
    ||| s == "-E"@
    ||| s == "-s"@
    ||| s == "-t"@
    ||| s == "-T"@
    ||| s == "-u"@
    ||| s == "-v"@
    ||| s == "-h"@
    ||| s == "--help"@
    ||| s == "-?"@
}

/// The tokens that ask for the usage text.
pub open spec fn spec_help_token(s: Seq<char>) -> bool {
    s == "-h"@ || s == "--help"@ || s == "-?"@
}

fn contains_token(tokens: &Vec<String>, t: &str) -> (r: bool)
    ensures
        r == spec_has_token(tokens.deep_view(), t@),
{
    let mut i: usize = 0;
    while i < tokens.len()
        invariant
            i <= tokens@.len(),
            forall|j: int| 0 <= j < i ==> (#[trigger] tokens.deep_view()[j]) != t@,
        decreases tokens@.len() - i,
    {
        proof {
            assert(tokens.deep_view()[i as int] == tokens@[i as int]@);
        }
        if str_eq(tokens[i].as_str(), t) {
            return true;
        }
        i += 1;
    }
    false
}

/// Whether a token is one of the recognized flags.
pub fn is_flag(arg: &str) -> (r: bool)
    ensures
        r == spec_is_flag(arg@),
{
    str_eq(arg, "-n") || str_eq(arg, "-b") || str_eq(arg, "-e") || str_eq(arg, "-E") || str_eq(
        arg,
        "-s",
    ) || str_eq(arg, "-t") || str_eq(arg, "-T") || str_eq(arg, "-u") || str_eq(arg, "-v") || str_eq(
        arg,
        "-h",
    ) || str_eq(arg, "--help") || str_eq(arg, "-?")
}

/// The option set read off the whole token list: presence of a flag
/// anywhere turns its option on, and numbering all lines takes precedence
/// over numbering the non-blank ones whenever both are asked for.
pub fn parse_options(tokens: &Vec<String>) -> (opts: Options)
    ensures
        opts.numbering_mode == (if spec_has_token(tokens.deep_view(), "-n"@) {
            NumberingMode::All
        } else if spec_has_token(tokens.deep_view(), "-b"@) {
            NumberingMode::NonBlank
        } else {
            NumberingMode::NoNumbering
        }),
        opts.show_ends == (spec_has_token(tokens.deep_view(), "-e"@) || spec_has_token(
            tokens.deep_view(),
            "-E"@,
        )),
        opts.squeeze_blank == spec_has_token(tokens.deep_view(), "-s"@),
        opts.show_tabs == (spec_has_token(tokens.deep_view(), "-t"@) || spec_has_token(
            tokens.deep_view(),
            "-T"@,
        )),
        opts.show_nonprinting == spec_has_token(tokens.deep_view(), "-v"@),
        opts.unbuffered == spec_has_token(tokens.deep_view(), "-u"@),
{
    let numbering_mode: NumberingMode = if contains_token(tokens, "-n") {
        NumberingMode::All
    } else if contains_token(tokens, "-b") {
        NumberingMode::NonBlank
    } else {
        NumberingMode::NoNumbering
    };
    Options {
        numbering_mode,
        show_ends: contains_token(tokens, "-e") || contains_token(tokens, "-E"),
        squeeze_blank: contains_token(tokens, "-s"),
        show_tabs: contains_token(tokens, "-t") || contains_token(tokens, "-T"),
        show_nonprinting: contains_token(tokens, "-v"),
        unbuffered: contains_token(tokens, "-u"),
    }
}

/// The non-flag tokens of a list, in their original order.
pub open spec fn spec_non_flag_tokens(tokens: Seq<Seq<char>>) -> Seq<Seq<char>>
    decreases tokens.len(),
{
    if tokens.len() == 0 {
        Seq::empty()
    } else if spec_is_flag(tokens[0]) {
        spec_non_flag_tokens(tokens.drop_first())
    } else {
        seq![tokens[0]] + spec_non_flag_tokens(tokens.drop_first())
    }
}

/// The source paths of an invocation: every token after the leading program
/// name that is not a recognized flag, in order.
pub fn source_tokens(tokens: &Vec<String>) -> (srcs: Vec<String>)
    requires
        tokens@.len() >= 1,
    ensures
        srcs.deep_view() == spec_non_flag_tokens(tokens.deep_view().drop_first()),
{
    let ghost all: Seq<Seq<char>> = tokens.deep_view();
    let mut srcs: Vec<String> = Vec::new();
    let mut i: usize = 1;
    proof {
        assert(all.skip(1) =~= all.drop_first());
        assert(srcs.deep_view() + spec_non_flag_tokens(all.skip(1)) =~= spec_non_flag_tokens(
            all.drop_first(),
        ));
    }
    while i < tokens.len()
        invariant
            1 <= i <= all.len(),
            all == tokens.deep_view(),
            srcs.deep_view() + spec_non_flag_tokens(all.skip(i as int)) == spec_non_flag_tokens(
                all.drop_first(),
            ),
        decreases all.len() - i,
    {
        let ghost srcs0: Seq<Seq<char>> = srcs.deep_view();
        if !is_flag(tokens[i].as_str()) {
            srcs.push(tokens[i].clone());
            proof {
                assert(srcs.deep_view() =~= srcs0.push(all[i as int]));
            }
        }
        proof {
            assert(all.skip(i as int).drop_first() =~= all.skip(i + 1 as int));
            if !spec_is_flag(all[i as int]) {
                assert(srcs0.push(all[i as int]) + spec_non_flag_tokens(all.skip(i + 1 as int))
                    =~= srcs0 + (seq![all[i as int]] + spec_non_flag_tokens(
                    all.skip(i + 1 as int),
                )));
            }
        }
        i += 1;
    }
    proof {
        assert(all.skip(all.len() as int) =~= Seq::<Seq<char>>::empty());
        assert(srcs.deep_view() + Seq::<Seq<char>>::empty() =~= srcs.deep_view());
    }
    srcs
}

/// Whether the invocation asks for the usage text: a help token standing
/// exactly in the first position after the program name; a help token
/// anywhere else is not treated specially.
pub fn wants_help(tokens: &Vec<String>) -> (r: bool)
    ensures
        r == (tokens@.len() > 1 && spec_help_token(tokens.deep_view()[1])),
{
    if tokens.len() > 1 {
        let a: &String = &tokens[1];
        str_eq(a.as_str(), "-h") || str_eq(a.as_str(), "--help") || str_eq(a.as_str(), "-?")
    } else {
        false
    }
}

} // verus!

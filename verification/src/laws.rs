//! Properties of the transformation that span several functions, stated
//! and proved over the same spec functions the executable contracts use.

use vstd::prelude::*;
use crate::options::Options;
use crate::text::spec_is_blank;
use crate::transform::{
    spec_next_counter, spec_numbered, spec_render_body, spec_render_char, spec_rendered_line,
    spec_squeezed, spec_transform,
};

verus! {

/// An option set with every display option off.
pub open spec fn spec_plain(opts: Options) -> bool {
    &&& opts.numbering_mode is NoNumbering
    &&& !opts.show_ends
    &&& !opts.squeeze_blank
    &&& !opts.show_tabs
    &&& !opts.show_nonprinting
}

/// The input lines joined back together, each terminated by exactly one
/// newline.
pub open spec fn spec_joined_lines(lines: Seq<Seq<char>>) -> Seq<char>
    decreases lines.len(),
{
    if lines.len() == 0 {
        Seq::empty()
    } else {
        lines[0] + seq!['\n'] + spec_joined_lines(lines.drop_first())
    }
}

proof fn lemma_render_body_plain(line: Seq<char>, opts: Options)
    requires
        !opts.show_tabs,
        !opts.show_nonprinting,
    ensures
        spec_render_body(line, opts) == line,
    decreases line.len(),
{
    if line.len() == 0 {
        assert(spec_render_body(line, opts) =~= line);
    } else {
        lemma_render_body_plain(line.drop_first(), opts);
        assert(spec_render_char(line[0], opts) =~= seq![line[0]]);
        assert(seq![line[0]] + line.drop_first() =~= line);
    }
}

/// With every display option off, the output is the input: each line comes
/// back unchanged, re-terminated by exactly one newline.
pub proof fn lemma_round_trip_identity(
    lines: Seq<Seq<char>>,
    opts: Options,
    counter: int,
    prev_blank: bool,
)
    requires
        spec_plain(opts),
    ensures
        spec_transform(lines, opts, counter, prev_blank) == spec_joined_lines(lines),
    decreases lines.len(),
{
    if lines.len() > 0 {
        lemma_render_body_plain(lines[0], opts);
        lemma_round_trip_identity(lines.drop_first(), opts, counter, spec_is_blank(lines[0]));
        assert(spec_rendered_line(lines[0], opts, counter) =~= lines[0] + seq!['\n']);
        assert((lines[0] + seq!['\n']) + spec_joined_lines(lines.drop_first()) =~= lines[0]
            + seq!['\n'] + spec_joined_lines(lines.drop_first()));
    }
}

/// The numbers the transformation hands out, in order of use: squeezed and
/// unnumbered lines receive none, and a numbered line takes the current
/// counter, which then moves up by one.
pub open spec fn spec_assigned_numbers(
    lines: Seq<Seq<char>>,
    opts: Options,
    counter: int,
    prev_blank: bool,
) -> Seq<int>
    decreases lines.len(),
{
    if lines.len() == 0 {
        Seq::empty()
    } else if spec_squeezed(opts, lines[0], prev_blank) {
        spec_assigned_numbers(lines.drop_first(), opts, counter, prev_blank)
    } else if spec_numbered(opts, spec_is_blank(lines[0])) {
        seq![counter] + spec_assigned_numbers(
            lines.drop_first(),
            opts,
            counter + 1,
            spec_is_blank(lines[0]),
        )
    } else {
        spec_assigned_numbers(lines.drop_first(), opts, counter, spec_is_blank(lines[0]))
    }
}

/// The numbers handed out strictly increase by exactly one from line to
/// numbered line: starting the counter at `counter`, the i-th number used
/// is `counter + i`.
pub proof fn lemma_numbers_consecutive(
    lines: Seq<Seq<char>>,
    opts: Options,
    counter: int,
    prev_blank: bool,
)
    ensures
        forall|i: int|
            0 <= i < spec_assigned_numbers(lines, opts, counter, prev_blank).len()
                ==> #[trigger] spec_assigned_numbers(lines, opts, counter, prev_blank)[i]
                == counter + i,
    decreases lines.len(),
{
    if lines.len() > 0 {
        if spec_squeezed(opts, lines[0], prev_blank) {
            lemma_numbers_consecutive(lines.drop_first(), opts, counter, prev_blank);
            let ns = spec_assigned_numbers(lines, opts, counter, prev_blank);
            let tail = spec_assigned_numbers(lines.drop_first(), opts, counter, prev_blank);
            assert forall|i: int| 0 <= i < ns.len() implies ns[i] == counter + i by {
                assert(ns[i] == tail[i]);
            }
        } else if spec_numbered(opts, spec_is_blank(lines[0])) {
            lemma_numbers_consecutive(
                lines.drop_first(),
                opts,
                counter + 1,
                spec_is_blank(lines[0]),
            );
            let ns = spec_assigned_numbers(lines, opts, counter, prev_blank);
            let tail = spec_assigned_numbers(
                lines.drop_first(),
                opts,
                counter + 1,
                spec_is_blank(lines[0]),
            );
            assert(ns == seq![counter] + tail);
            assert forall|i: int| 0 <= i < ns.len() implies ns[i] == counter + i by {
                if i > 0 {
                    assert(ns[i] == tail[i - 1]);
                }
            }
        } else {
            lemma_numbers_consecutive(lines.drop_first(), opts, counter, spec_is_blank(lines[0]));
            let ns = spec_assigned_numbers(lines, opts, counter, prev_blank);
            let tail = spec_assigned_numbers(
                lines.drop_first(),
                opts,
                counter,
                spec_is_blank(lines[0]),
            );
            assert forall|i: int| 0 <= i < ns.len() implies ns[i] == counter + i by {
                assert(ns[i] == tail[i]);
            }
        }
    }
}

proof fn lemma_squeeze_consumes_blanks(
    blanks: Seq<Seq<char>>,
    rest: Seq<Seq<char>>,
    opts: Options,
    counter: int,
)
    requires
        opts.squeeze_blank,
        forall|i: int| 0 <= i < blanks.len() ==> spec_is_blank(#[trigger] blanks[i]),
    ensures
        spec_transform(blanks + rest, opts, counter, true) == spec_transform(
            rest,
            opts,
            counter,
            true,
        ),
    decreases blanks.len(),
{
    if blanks.len() == 0 {
        assert(blanks + rest =~= rest);
    } else {
        assert((blanks + rest)[0] == blanks[0]);
        assert((blanks + rest).drop_first() =~= blanks.drop_first() + rest);
        lemma_squeeze_consumes_blanks(blanks.drop_first(), rest, opts, counter);
    }
}

/// With blank squeezing on, a run of consecutive blank lines that follows a
/// non-blank position contributes exactly one blank output line, however
/// long the run: the first blank of the run is rendered, the others vanish
/// and leave the counter untouched.
pub proof fn lemma_squeeze_run(
    blanks: Seq<Seq<char>>,
    rest: Seq<Seq<char>>,
    opts: Options,
    counter: int,
)
    requires
        opts.squeeze_blank,
        blanks.len() >= 1,
        forall|i: int| 0 <= i < blanks.len() ==> spec_is_blank(#[trigger] blanks[i]),
    ensures
        spec_transform(blanks + rest, opts, counter, false) == spec_rendered_line(
            blanks[0],
            opts,
            counter,
        ) + spec_transform(rest, opts, spec_next_counter(opts, blanks[0], counter), true),
{
    let all = blanks + rest;
    assert(all[0] == blanks[0]);
    assert(all.drop_first() =~= blanks.drop_first() + rest);
    lemma_squeeze_consumes_blanks(
        blanks.drop_first(),
        rest,
        opts,
        spec_next_counter(opts, blanks[0], counter),
    );
}

/// Tab rendering and nonprinting rendering never both touch one character:
/// a tab is shown as the `^I` marker exactly when tabs are made visible and
/// as itself otherwise, whatever the nonprinting option says.
pub proof fn lemma_tab_never_caret_escaped(opts: Options)
    ensures
        opts.show_tabs ==> spec_render_char('\t', opts) == seq!['^', 'I'],
        !opts.show_tabs ==> spec_render_char('\t', opts) == seq!['\t'],
{
    assert(crate::text::spec_is_ascii_white('\t'));
}

} // verus!

//! The line transformation pipeline: per-line rendering under the option
//! set, and the state (line counter, previous-line-blank flag) that spans
//! the lines of one source.

use vstd::prelude::*;
use vstd::string::StringExecFns;
use crate::numbering::{number_prefix, spec_number_prefix};
use crate::options::{NumberingMode, Options};
use crate::text::{
    chars_to_string, line_is_blank, push_caret_notation, spec_caret_notation, spec_is_ascii_graphic,
    spec_is_ascii_white, spec_is_blank, str_chars,
};

verus! {

/// How one character is shown: a tab becomes the `^I` marker when tabs are
/// made visible; otherwise a character that is neither ASCII graphic nor
/// ASCII whitespace becomes its caret form when nonprinting characters are
/// made visible; every other character stays as it is. The tab check comes
/// first, so a tab is never caret-escaped.
pub open spec fn spec_render_char(c: char, opts: Options) -> Seq<char> {
    if opts.show_tabs && c == '\t' {
        seq!['^', 'I']
    } else if opts.show_nonprinting && !spec_is_ascii_graphic(c) && !spec_is_ascii_white(c) {
        spec_caret_notation(c)
    } else {
        seq![c]
    }
}

/// The body of an output line: each character of the input line rendered in
/// order.
pub open spec fn spec_render_body(line: Seq<char>, opts: Options) -> Seq<char>
    decreases line.len(),
{
    if line.len() == 0 {
        Seq::empty()
    } else {
        spec_render_char(line[0], opts) + spec_render_body(line.drop_first(), opts)
    }
}

/// Whether a line is numbered: all lines are, or only the non-blank ones,
/// or none.
pub open spec fn spec_numbered(opts: Options, blank: bool) -> bool {
    opts.numbering_mode is All || (opts.numbering_mode is NonBlank && !blank)
}

/// Whether a line is dropped by blank squeezing: it is blank and follows a
/// blank line while squeezing is on.
pub open spec fn spec_squeezed(opts: Options, line: Seq<char>, prev_blank: bool) -> bool {
    opts.squeeze_blank && spec_is_blank(line) && prev_blank
}

/// The counter after a line that was not dropped: one more when the line
/// was numbered, unchanged otherwise.
pub open spec fn spec_next_counter(opts: Options, line: Seq<char>, counter: int) -> int {
    if spec_numbered(opts, spec_is_blank(line)) {
        counter + 1
    } else {
        counter
    }
}

/// One full output line: the number prefix when the line is numbered, the
/// rendered body, the `$` marker when line ends are shown, and the
/// terminating newline, which every emitted line receives.
pub open spec fn spec_rendered_line(line: Seq<char>, opts: Options, counter: int) -> Seq<char> {
    (if spec_numbered(opts, spec_is_blank(line)) {
        spec_number_prefix(counter)
    } else {
        Seq::<char>::empty()
    }) + spec_render_body(line, opts) + (if opts.show_ends {
        seq!['$']
    } else {
        Seq::<char>::empty()
    }) + seq!['\n']
}

/// The whole output for a sequence of input lines, starting from the given
/// counter and previous-line-blank flag: squeezed lines vanish and leave
/// the state untouched; every other line is rendered and advances the
/// state.
pub open spec fn spec_transform(
    lines: Seq<Seq<char>>,
    opts: Options,
    counter: int,
    prev_blank: bool,
) -> Seq<char>
    decreases lines.len(),
{
    if lines.len() == 0 {
        Seq::empty()
    } else if spec_squeezed(opts, lines[0], prev_blank) {
        spec_transform(lines.drop_first(), opts, counter, prev_blank)
    } else {
        spec_rendered_line(lines[0], opts, counter) + spec_transform(
            lines.drop_first(),
            opts,
            spec_next_counter(opts, lines[0], counter),
            spec_is_blank(lines[0]),
        )
    }
}

/// The mutable state of one source's transformation: the next line number
/// to hand out, and whether the line last considered for output was blank.
pub struct TransformerState {
    pub line_number: u64,
    pub last_was_blank: bool,
}

impl TransformerState {
    /// The state at the start of a source: counting from one, with no
    /// previous line.
    pub fn new() -> (s: Self)
        ensures
            s.line_number == 1,
            !s.last_was_blank,
    {
        TransformerState { line_number: 1, last_was_blank: false }
    }
}

proof fn lemma_render_body_push(s: Seq<char>, c: char, opts: Options)
    ensures
        spec_render_body(s.push(c), opts) == spec_render_body(s, opts) + spec_render_char(c, opts),
    decreases s.len(),
{
    if s.len() == 0 {
        assert(s.push(c).drop_first() =~= s);
        assert(s.push(c)[0] == c);
        assert(spec_render_body(s, opts) == Seq::<char>::empty());
        assert(spec_render_body(s.push(c), opts) =~= spec_render_char(c, opts));
        assert(spec_render_body(s, opts) + spec_render_char(c, opts) =~= spec_render_char(c, opts));
    } else {
        assert(s.push(c).drop_first() =~= s.drop_first().push(c));
        lemma_render_body_push(s.drop_first(), c, opts);
        assert(spec_render_char(s[0], opts) + (spec_render_body(s.drop_first(), opts)
            + spec_render_char(c, opts)) =~= (spec_render_char(s[0], opts) + spec_render_body(
            s.drop_first(),
            opts,
        )) + spec_render_char(c, opts));
    }
}

fn push_rendered_char(out: &mut Vec<char>, c: char, opts: &Options)
    ensures
        final(out)@ == old(out)@ + spec_render_char(c, *opts),
{
    if opts.show_tabs && c == '\t' {
        out.push('^');
        out.push('I');
        proof {
            assert(out@ =~= old(out)@ + spec_render_char(c, *opts));
        }
    } else {
        let v: u32 = c as u32;
        if opts.show_nonprinting && !(0x21 <= v && v <= 0x7e) && !(v == 0x20 || v == 0x09 || v
            == 0x0a || v == 0x0c || v == 0x0d) {
            push_caret_notation(out, c);
        } else {
            out.push(c);
            proof {
                assert(out@ =~= old(out)@ + spec_render_char(c, *opts));
            }
        }
    }
}

fn push_rendered_body(out: &mut Vec<char>, line: &Vec<char>, opts: &Options)
    ensures
        final(out)@ == old(out)@ + spec_render_body(line@, *opts),
{
    let mut i: usize = 0;
    proof {
        assert(out@ =~= old(out)@ + spec_render_body(line@.subrange(0, 0), *opts));
    }
    while i < line.len()
        invariant
            i <= line@.len(),
            out@ == old(out)@ + spec_render_body(line@.subrange(0, i as int), *opts),
        decreases line@.len() - i,
    {
        push_rendered_char(out, line[i], opts);
        proof {
            assert(line@.subrange(0, i + 1 as int) =~= line@.subrange(0, i as int).push(
                line@[i as int],
            ));
            lemma_render_body_push(line@.subrange(0, i as int), line@[i as int], *opts);
            assert(out@ =~= old(out)@ + spec_render_body(line@.subrange(0, i + 1 as int), *opts));
        }
        i += 1;
    }
    proof {
        assert(line@.subrange(0, line@.len() as int) =~= line@);
    }
}

/// One step of the pipeline: the line is either dropped by blank squeezing,
/// leaving the state exactly as it was, or rendered under the options with
/// the current counter, setting the blank flag and advancing the counter
/// exactly when the line was numbered.
pub fn process_line(line: &str, options: &Options, state: &mut TransformerState) -> (out: Option<
    String,
>)
    requires
        old(state).line_number < u64::MAX,
    ensures
        spec_squeezed(*options, line@, old(state).last_was_blank) ==> (out is None && *final(state)
            == *old(state)),
        !spec_squeezed(*options, line@, old(state).last_was_blank) ==> (out is Some && out->0@
            == spec_rendered_line(line@, *options, old(state).line_number as int)
            && final(state).last_was_blank == spec_is_blank(line@) && final(state).line_number as int
            == spec_next_counter(*options, line@, old(state).line_number as int)),
{
    let chars: Vec<char> = str_chars(line);
    let blank: bool = line_is_blank(&chars);
    if options.squeeze_blank && blank && state.last_was_blank {
        return None;
    }
    state.last_was_blank = blank;
    let numbered: bool = match options.numbering_mode {
        NumberingMode::All => true,
        NumberingMode::NonBlank => !blank,
        NumberingMode::NoNumbering => false,
    };
    let mut out: Vec<char> = if numbered {
        let prefix: Vec<char> = number_prefix(state.line_number);
        state.line_number = state.line_number + 1;
        prefix
    } else {
        Vec::new()
    };
    push_rendered_body(&mut out, &chars, options);
    if options.show_ends {
        out.push('$');
    }
    out.push('\n');
    proof {
        assert(out@ =~= spec_rendered_line(line@, *options, old(state).line_number as int));
    }
    Some(chars_to_string(&out))
}

/// The transformation of a whole source: each line of `lines` run through
/// the pipeline with a fresh state, and everything emitted appended to
/// `writer` in order.
pub fn print_lines_to_writer(lines: &Vec<String>, options: &Options, writer: &mut String)
    requires
        lines@.len() < u64::MAX,
    ensures
        final(writer)@ == old(writer)@ + spec_transform(lines.deep_view(), *options, 1, false),
{
    let ghost all: Seq<Seq<char>> = lines.deep_view();
    let mut state: TransformerState = TransformerState::new();
    let mut i: usize = 0;
    proof {
        assert(all.skip(0) =~= all);
    }
    while i < lines.len()
        invariant
            i <= all.len(),
            all.len() < u64::MAX,
            all == lines.deep_view(),
            1 <= state.line_number,
            state.line_number as int <= 1 + i,
            old(writer)@ + spec_transform(all, *options, 1, false) == writer@ + spec_transform(
                all.skip(i as int),
                *options,
                state.line_number as int,
                state.last_was_blank,
            ),
        decreases all.len() - i,
    {
        let ghost w0: Seq<char> = writer@;
        let ghost counter0: int = state.line_number as int;
        let s: &String = &lines[i];
        proof {
            assert(all[i as int] == lines@[i as int]@);
            assert(all.skip(i as int)[0] == all[i as int]);
            assert(all.skip(i as int).drop_first() =~= all.skip(i + 1 as int));
        }
        match process_line(s.as_str(), options, &mut state) {
            Some(t) => {
                writer.append(t.as_str());
                proof {
                    assert((w0 + spec_rendered_line(all[i as int], *options, counter0))
                        + spec_transform(
                        all.skip(i + 1 as int),
                        *options,
                        state.line_number as int,
                        state.last_was_blank,
                    ) =~= w0 + (spec_rendered_line(all[i as int], *options, counter0)
                        + spec_transform(
                        all.skip(i + 1 as int),
                        *options,
                        state.line_number as int,
                        state.last_was_blank,
                    )));
                }
            },
            None => {},
        }
        i += 1;
    }
    proof {
        assert(all.skip(all.len() as int) =~= Seq::<Seq<char>>::empty());
        assert(writer@ + Seq::<char>::empty() =~= writer@);
    }
}

} // verus!

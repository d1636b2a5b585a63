//! Rendering a record as display text: one prefixed line for each physical
//! line of its payload.

use crate::record::{LogLine, LogPriority, Record};
use crate::text::{
    lemma_concat_free, lemma_split_concat, lemma_split_free, lemma_split_nonempty,
    lemma_split_pieces_free, push_char, split, to_chars, trim, trim_bounds,
};
use colored::Colorize;
use vstd::prelude::*;
use vstd::string::StringExecFns;

verus! {

/// The letter that stands for a priority.
pub open spec fn glyph(priority: LogPriority) -> char {
    match priority {
        LogPriority::Debug => 'D',
        LogPriority::Info => 'I',
        LogPriority::Error => 'E',
        LogPriority::Critical => 'C',
    }
}

/// The colour codes in which a priority is shown on a terminal; none for
/// `Info`, which is shown plain.
pub open spec fn colour_codes(priority: LogPriority) -> Seq<char> {
    match priority {
        LogPriority::Debug => seq!['9', '0'],
        LogPriority::Info => Seq::empty(),
        LogPriority::Error => seq!['3', '1'],
        LogPriority::Critical => seq!['4', '7', ';', '3', '1'],
    }
}

/// The escape sequence that resets the terminal.
pub open spec fn reset() -> Seq<char> {
    seq!['\x1b', '[', '0', 'm']
}

/// `text` between the escape sequence that selects `codes` and the reset.
pub open spec fn painted(codes: Seq<char>, text: Seq<char>) -> Seq<char> {
    seq!['\x1b', '['] + codes + seq!['m'] + text + reset()
}

/// How a marker comes out, which is for the process's colour switch to say.
pub enum Paint {
    /// Colours are off: the letter alone.
    Plain,
    /// Colours are on: the letter between its colour codes and the reset.
    Coloured,
    /// Colours went off while the marker was being written: the letter and
    /// the reset, without the colour codes before them.
    Fading,
}

/// The marker of a priority: its letter, painted as `paint` says where the
/// priority has a colour.
pub open spec fn marker(priority: LogPriority, paint: Paint) -> Seq<char> {
    if priority == LogPriority::Info {
        seq![glyph(priority)]
    } else {
        match paint {
            Paint::Plain => seq![glyph(priority)],
            Paint::Coloured => painted(colour_codes(priority), seq![glyph(priority)]),
            Paint::Fading => seq![glyph(priority)] + reset(),
        }
    }
}

/// What every output line of a record starts with.
pub open spec fn line_prefix(name: Seq<char>, marker: Seq<char>) -> Seq<char> {
    name + seq!['('] + marker + seq![')', ' ']
}

/// One output line: the prefix, the physical line and a newline.
pub open spec fn output_line(prefix: Seq<char>, line: Seq<char>) -> Seq<char> {
    prefix + line + seq!['\n']
}

/// The physical lines of a payload: what the newlines cut the payload into,
/// once the white space at its ends is gone.
pub open spec fn physical_lines(text: Seq<char>) -> Seq<Seq<char>> {
    split(trim(text), '\n')
}

/// The output lines of a payload, one for each physical line, in order.
pub open spec fn rendered_lines(text: Seq<char>, name: Seq<char>, marker: Seq<char>) -> Seq<
    Seq<char>,
> {
    physical_lines(text).map_values(|line: Seq<char>| output_line(line_prefix(name, marker), line))
}

/// The rendered text of a payload: its output lines one after the other.
pub open spec fn rendered(text: Seq<char>, name: Seq<char>, marker: Seq<char>) -> Seq<char> {
    rendered_lines(text, name, marker).flatten()
}

/// The text as which a record is displayed, its markers painted as `paint`
/// says.
pub open spec fn shown(record: Record, paint: Paint) -> Seq<char> {
    rendered(record.text, record.source_name, marker(record.priority, paint))
}

/// Whether `text` displays `record`, its markers painted in some way.
pub open spec fn displays(text: Seq<char>, record: Record) -> bool {
    ||| text == shown(record, Paint::Plain)
    ||| text == shown(record, Paint::Coloured)
    ||| text == shown(record, Paint::Fading)
}

/// Rendering is deterministic: what a record is displayed as follows from
/// its payload, its program name, its priority and the way markers are
/// painted, and from nothing else. Two records that agree in the three are
/// displayed alike, whenever they were made.
pub proof fn lemma_render_deterministic(a: LogLine, b: LogLine, paint: Paint)
    requires
        a@.text == b@.text,
        a@.source_name == b@.source_name,
        a@.priority == b@.priority,
    ensures
        shown(a@, paint) == shown(b@, paint),
{
}

/// One output line for each physical line.
///
/// A payload of N physical lines is rendered as exactly N output lines, in
/// the order of the physical lines. Each is the program name, an opening
/// bracket, the marker, a closing bracket, a space, the physical line and a
/// newline, and so begins with the name, the bracket and the marker. The
/// rendered text is these lines one after the other. There is always at
/// least one line.
pub proof fn lemma_one_output_line_per_physical_line(
    text: Seq<char>,
    name: Seq<char>,
    marker: Seq<char>,
)
    ensures
        physical_lines(text).len() >= 1,
        rendered_lines(text, name, marker).len() == physical_lines(text).len(),
        forall|i: int|
            0 <= i < physical_lines(text).len() ==> {
                &&& (#[trigger] rendered_lines(text, name, marker)[i]) == name + seq!['(']
                    + marker + seq![')', ' '] + physical_lines(text)[i] + seq!['\n']
                &&& (name + seq!['('] + marker).is_prefix_of(rendered_lines(text, name, marker)[i])
            },
        rendered(text, name, marker) == rendered_lines(text, name, marker).flatten(),
{
    lemma_split_nonempty(trim(text), '\n');
    assert forall|i: int| 0 <= i < physical_lines(text).len() implies {
        &&& (#[trigger] rendered_lines(text, name, marker)[i]) == name + seq!['('] + marker
            + seq![')', ' '] + physical_lines(text)[i] + seq!['\n']
        &&& (name + seq!['('] + marker).is_prefix_of(rendered_lines(text, name, marker)[i])
    } by {
        assert(rendered_lines(text, name, marker)[i] =~= name + seq!['('] + marker + seq![
            ')',
            ' ',
        ] + physical_lines(text)[i] + seq!['\n']);
    }
}

/// One output line for each physical line of a record.
///
/// A record whose payload has N physical lines is displayed as exactly N
/// output lines, and each of them begins with the record's program name, an
/// opening bracket and the marker of the record's priority.
pub proof fn lemma_record_lines(record: Record, paint: Paint)
    ensures
        ({
            let level = marker(record.priority, paint);
            let lines = rendered_lines(record.text, record.source_name, level);
            &&& lines.len() == physical_lines(record.text).len()
            &&& shown(record, paint) == lines.flatten()
            &&& forall|i: int|
                0 <= i < lines.len() ==> (record.source_name + seq!['('] + level).is_prefix_of(
                    #[trigger] lines[i],
                )
        }),
{
    lemma_one_output_line_per_physical_line(
        record.text,
        record.source_name,
        marker(record.priority, paint),
    );
}

/// The marker of a priority holds no newline.
pub proof fn lemma_marker_on_one_line(priority: LogPriority, paint: Paint)
    ensures
        !marker(priority, paint).contains('\n'),
{
    let letter = seq![glyph(priority)];
    lemma_concat_free(seq!['\x1b', '['], colour_codes(priority), '\n');
    lemma_concat_free(seq!['\x1b', '['] + colour_codes(priority), seq!['m'], '\n');
    lemma_concat_free(seq!['\x1b', '['] + colour_codes(priority) + seq!['m'], letter, '\n');
    lemma_concat_free(
        seq!['\x1b', '['] + colour_codes(priority) + seq!['m'] + letter,
        reset(),
        '\n',
    );
    lemma_concat_free(letter, reset(), '\n');
}

/// The output lines are the lines of the rendered text.
///
/// Where the program name and the marker hold no newline, the rendered text
/// ends with a newline, and the newlines cut what stands before that last
/// one into exactly the output lines without their newlines: the prefix and
/// the physical line, for each physical line in order.
pub proof fn lemma_output_lines_are_lines(text: Seq<char>, name: Seq<char>, marker: Seq<char>)
    requires
        !name.contains('\n'),
        !marker.contains('\n'),
    ensures
        rendered(text, name, marker).len() > 0,
        rendered(text, name, marker).last() == '\n',
        split(rendered(text, name, marker).drop_last(), '\n') == physical_lines(text).map_values(
            |line: Seq<char>| line_prefix(name, marker) + line,
        ),
{
    let prefix = line_prefix(name, marker);
    lemma_concat_free(name, seq!['('], '\n');
    lemma_concat_free(name + seq!['('], marker, '\n');
    lemma_concat_free(name + seq!['('] + marker, seq![')', ' '], '\n');
    lemma_split_nonempty(trim(text), '\n');
    lemma_split_pieces_free(trim(text), '\n');
    lemma_lines_of_output(physical_lines(text), prefix);
}

/// The lines of the output of `pieces`, none of which holds a newline.
proof fn lemma_lines_of_output(pieces: Seq<Seq<char>>, prefix: Seq<char>)
    requires
        pieces.len() >= 1,
        !prefix.contains('\n'),
        forall|i: int| 0 <= i < pieces.len() ==> !(#[trigger] pieces[i]).contains('\n'),
    ensures
        pieces.map_values(|line: Seq<char>| output_line(prefix, line)).flatten().len() > 0,
        pieces.map_values(|line: Seq<char>| output_line(prefix, line)).flatten().last() == '\n',
        split(
            pieces.map_values(|line: Seq<char>| output_line(prefix, line)).flatten().drop_last(),
            '\n',
        ) == pieces.map_values(|line: Seq<char>| prefix + line),
    decreases pieces.len(),
{
    let full = |line: Seq<char>| output_line(prefix, line);
    let bare = |line: Seq<char>| prefix + line;
    let last = pieces.last();
    let init = pieces.drop_last();
    let output = pieces.map_values(full).flatten();
    assert(pieces.map_values(full) =~= init.map_values(full).push(full(last)));
    init.map_values(full).lemma_flatten_push(full(last));
    lemma_concat_free(prefix, last, '\n');
    lemma_split_free(prefix + last, '\n');
    if pieces.len() == 1 {
        assert(output.drop_last() =~= prefix + last);
    } else {
        lemma_lines_of_output(init, prefix);
        let earlier = init.map_values(full).flatten();
        assert(output.drop_last() =~= earlier.drop_last() + seq!['\n'] + (prefix + last));
        lemma_split_concat(earlier.drop_last(), prefix + last, '\n');
    }
}

/// The output of `pieces` when the last of them is still being written: the
/// lines before it in full, then the prefix and the last piece so far.
spec fn underway(pieces: Seq<Seq<char>>, prefix: Seq<char>) -> Seq<char> {
    pieces.drop_last().map_values(|line: Seq<char>| output_line(prefix, line)).flatten() + prefix
        + pieces.last()
}

/// Ending the last piece of the output with a newline completes the output.
proof fn lemma_underway_done(pieces: Seq<Seq<char>>, prefix: Seq<char>)
    requires
        pieces.len() >= 1,
    ensures
        pieces.map_values(|line: Seq<char>| output_line(prefix, line)).flatten() == underway(
            pieces,
            prefix,
        ) + seq!['\n'],
{
    let full = |line: Seq<char>| output_line(prefix, line);
    let init = pieces.drop_last();
    assert(pieces.map_values(full) =~= init.map_values(full).push(full(pieces.last())));
    init.map_values(full).lemma_flatten_push(full(pieces.last()));
}

/// A character that is no newline goes to the end of the output under way.
proof fn lemma_underway_char(s: Seq<char>, prefix: Seq<char>)
    requires
        s.len() > 0,
        s.last() != '\n',
    ensures
        underway(split(s, '\n'), prefix) == underway(split(s.drop_last(), '\n'), prefix).push(
            s.last(),
        ),
{
    lemma_split_nonempty(s.drop_last(), '\n');
    assert(split(s, '\n').drop_last() =~= split(s.drop_last(), '\n').drop_last());
}

/// A newline ends the piece under way and starts the next with its prefix.
proof fn lemma_underway_newline(s: Seq<char>, prefix: Seq<char>)
    requires
        s.len() > 0,
        s.last() == '\n',
    ensures
        underway(split(s, '\n'), prefix) == underway(split(s.drop_last(), '\n'), prefix).push('\n')
            + prefix,
{
    let before = split(s.drop_last(), '\n');
    lemma_split_nonempty(s.drop_last(), '\n');
    assert(split(s, '\n').drop_last() =~= before);
    lemma_underway_done(before, prefix);
}

/// `Colorize::bright_black` on a `&str`, shown through `ToString::to_string`.
///
/// The outcome follows the process's colour switch, which is read more than
/// once on the way: `text` itself while colours are off; `text` between the
/// code of the bright black foreground and the reset while they are on;
/// `text` and the reset where they go off in between. A `text` that holds an
/// escape character is kept out, since resets inside the text are rewritten.
#[verifier::external_body]
fn bright_black(text: &str) -> (shown: String)
    requires
        !text@.contains('\x1b'),
    ensures
        shown@ == text@ || shown@ == painted(seq!['9', '0'], text@) || shown@ == text@ + reset(),
{
    text.bright_black().to_string()
}

/// `Colorize::normal` on a `&str`, shown through `ToString::to_string`: a
/// text without colour or style is shown as it stands, whatever the colour
/// switch says.
#[verifier::external_body]
fn normal(text: &str) -> (shown: String)
    ensures
        shown@ == text@,
{
    text.normal().to_string()
}

/// `Colorize::red` on a `&str`, shown through `ToString::to_string`.
///
/// The outcome follows the process's colour switch, which is read more than
/// once on the way: `text` itself while colours are off; `text` between the
/// code of the red foreground and the reset while they are on; `text` and
/// the reset where they go off in between. A `text` that holds an escape
/// character is kept out, since resets inside the text are rewritten.
#[verifier::external_body]
fn red(text: &str) -> (shown: String)
    requires
        !text@.contains('\x1b'),
    ensures
        shown@ == text@ || shown@ == painted(seq!['3', '1'], text@) || shown@ == text@ + reset(),
{
    text.red().to_string()
}

/// `Colorize::on_white` on a `&str`, then `Colorize::red` on the result,
/// shown through `ToString::to_string`.
///
/// The outcome follows the process's colour switch, which is read more than
/// once on the way: `text` itself while colours are off; `text` between the
/// codes of the white background and the red foreground, in that order, and
/// the reset while they are on; `text` and the reset where they go off in
/// between. A `text` that holds an escape character is kept out, since
/// resets inside the text are rewritten.
#[verifier::external_body]
fn red_on_white(text: &str) -> (shown: String)
    requires
        !text@.contains('\x1b'),
    ensures
        shown@ == text@ || shown@ == painted(seq!['4', '7', ';', '3', '1'], text@) || shown@
            == text@ + reset(),
{
    text.on_white().red().to_string()
}

/// The marker of `priority` as the process's colour switch asks for it at
/// the moment: the plain letter while colours are off, the letter in its
/// colour while they are on. Where the switch goes off in between, the
/// letter comes with the reset alone.
pub fn level_marker(priority: LogPriority) -> (shown: String)
    ensures
        shown@ == marker(priority, Paint::Plain) || shown@ == marker(priority, Paint::Coloured)
            || shown@ == marker(priority, Paint::Fading),
{
    proof {
        reveal_strlit("D");
        reveal_strlit("I");
        reveal_strlit("E");
        reveal_strlit("C");
    }
    match priority {
        LogPriority::Debug => {
            bright_black("D")
        },
        LogPriority::Info => {
            normal("I")
        },
        LogPriority::Error => {
            red("E")
        },
        LogPriority::Critical => {
            red_on_white("C")
        },
    }
}

/// Renders `record` with `marker` between the brackets of every line.
///
/// The payload is trimmed of the white space at its ends and cut at its
/// newlines; each physical line comes out as the program name, the marker in
/// round brackets, a space, the line and a newline.
pub fn render_with(record: &LogLine, marker: &str) -> (text: String)
    ensures
        text@ == rendered(record@.text, record@.source_name, marker@),
{
    let chars = to_chars(record.line.as_str());
    let (lo, hi) = trim_bounds(&chars);
    let mut prefix = record.prog_name.clone();
    proof {
        reveal_strlit("(");
        reveal_strlit(") ");
    }
    prefix.append("(");
    prefix.append(marker);
    prefix.append(") ");
    assert(prefix@ =~= line_prefix(record@.source_name, marker@));
    let mut text = prefix.clone();
    let ghost body = trim(chars@);
    let mut i: usize = lo;
    while i < hi
        invariant
            lo <= i <= hi <= chars.len(),
            body == chars@.subrange(lo as int, hi as int),
            text@ == underway(split(body.take(i - lo), '\n'), prefix@),
        decreases hi - i,
    {
        let c = chars[i];
        proof {
            let upto = body.take(i - lo + 1);
            assert(upto.drop_last() =~= body.take(i - lo));
            if c == '\n' {
                lemma_underway_newline(upto, prefix@);
            } else {
                lemma_underway_char(upto, prefix@);
            }
        }
        push_char(&mut text, c);
        if c == '\n' {
            text.append(prefix.as_str());
        }
        i += 1;
    }
    proof {
        assert(body.take(hi - lo) =~= body);
        lemma_split_nonempty(body, '\n');
        lemma_underway_done(split(body, '\n'), prefix@);
    }
    push_char(&mut text, '\n');
    text
}

/// Renders `line` for display.
///
/// The payload is trimmed of the white space at its ends and cut at its
/// newlines; each physical line comes out as the program name, the marker of
/// the priority in round brackets, a space, the line and a newline. The
/// marker is that of [`level_marker`], made once and the same on every line.
pub fn format_log(line: &LogLine) -> (text: String)
    ensures
        displays(text@, line@),
{
    let level = level_marker(line.priority);
    render_with(line, level.as_str())
}

} // verus!

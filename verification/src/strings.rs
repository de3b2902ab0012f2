//! Text assembly helpers: writing indentation, appending lines, re-indenting
//! multi-line snippets, and rendering decimal numbers.  The `_or_panic`
//! suffix records the fail-fast policy for sinks that can refuse a write;
//! appending to a `String` cannot fail, so these functions never panic.

use vstd::prelude::*;
use vstd::string::StrSliceExecFns;
use vstd::string::StringExecFns;

verus! {

/// Characters treated as line breaks when a snippet is re-indented.
pub open spec fn is_newline_char(c: char) -> bool {
    c == '\n' || c == '\r'
}

/// The text of `n` indent levels: four spaces per level.
pub open spec fn indent_text(n: nat) -> Seq<char>
    decreases n,
{
    if n == 0 {
        Seq::<char>::empty()
    } else {
        indent_text((n - 1) as nat) + "    "@
    }
}

/// One scanning step of re-indentation, mirroring a left-to-right walk:
/// `start` is the begin of the pending segment, `pos` the cursor, and
/// `after_newline` whether the cursor sits right after a run of newline
/// characters.  Whenever a non-newline character follows such a run, the
/// pending segment (newlines included) is emitted followed by one ambient
/// indent, and a new segment starts.
pub open spec fn reindented_from(s: Seq<char>, ind: Seq<char>, start: int, pos: int, after_newline: bool) -> Seq<char>
    decreases s.len() - pos,
{
    if pos < 0 || pos >= s.len() {
        if start < s.len() {
            s.subrange(start, s.len() as int)
        } else {
            Seq::<char>::empty()
        }
    } else if is_newline_char(s[pos]) {
        reindented_from(s, ind, start, pos + 1, true)
    } else if after_newline {
        s.subrange(start, pos) + ind + reindented_from(s, ind, pos, pos + 1, false)
    } else {
        reindented_from(s, ind, start, pos + 1, false)
    }
}

/// A multi-line snippet with one ambient indent inserted after every run of
/// newline characters that is followed by more text.
pub open spec fn reindented(s: Seq<char>, ind: Seq<char>) -> Seq<char> {
    reindented_from(s, ind, 0, 0, false)
}

/// Appends `indent` indent levels (four spaces each) to the sink.
pub fn append_indent_or_panic(sink: &mut String, indent: usize)
    ensures
        final(sink)@ == old(sink)@ + indent_text(indent as nat),
{
    let mut i: usize = 0;
    proof {
        assert(sink@ =~= old(sink)@ + indent_text(0));
    }
    while i < indent
        invariant
            0 <= i <= indent,
            sink@ == old(sink)@ + indent_text(i as nat),
        decreases indent - i,
    {
        sink.append("    ");
        i = i + 1;
    }
}

/// Appends one indented line and a line break.  The line itself is not
/// scanned for further newline characters.
pub fn append_line_with_indent_or_panic(sink: &mut String, indent: usize, line: &str)
    ensures
        final(sink)@ == old(sink)@ + indent_text(indent as nat) + line@ + "\n"@,
{
    append_indent_or_panic(sink, indent);
    sink.append(line);
    sink.append("\n");
}

/// Appends a possibly multi-line snippet, indenting its first line and
/// re-indenting every following line to the same ambient depth.
pub fn append_with_indent_or_panic(sink: &mut String, indent: usize, lines: &str)
    ensures
        final(sink)@ == old(sink)@ + indent_text(indent as nat)
            + reindented(lines@, indent_text(indent as nat)),
{
    let ghost ind: Seq<char> = indent_text(indent as nat);
    let length = lines.unicode_len();
    let mut start_position: usize = 0;
    let mut position: usize = 0;
    let mut n_newlines: usize = 0;

    append_indent_or_panic(sink, indent);
    let ghost target: Seq<char> = sink@ + reindented(lines@, ind);

    while position < length
        invariant
            0 <= start_position <= position <= length,
            n_newlines <= position,
            length == lines@.len(),
            ind == indent_text(indent as nat),
            target == sink@ + reindented_from(lines@, ind, start_position as int, position as int, n_newlines > 0),
        decreases length - position,
    {
        let ghost sp: int = start_position as int;
        let ghost p: int = position as int;
        let ghost saw: bool = n_newlines > 0;
        let c = lines.get_char(position);
        if c == '\r' || c == '\n' {
            proof {
                assert(reindented_from(lines@, ind, sp, p, saw)
                    == reindented_from(lines@, ind, sp, p + 1, true));
            }
            n_newlines = n_newlines + 1;
        } else if n_newlines > 0 {
            let ghost before: Seq<char> = sink@;
            let segment = lines.substring_char(start_position, position);
            sink.append(segment);
            append_indent_or_panic(sink, indent);
            start_position = position;
            n_newlines = 0;
            proof {
                let rest = reindented_from(lines@, ind, p, p + 1, false);
                assert(reindented_from(lines@, ind, sp, p, true)
                    == lines@.subrange(sp, p) + ind + rest);
                assert(segment@ == lines@.subrange(sp, p));
                assert(sink@ == before + segment@ + ind);
                assert(before + (lines@.subrange(sp, p) + ind + rest) =~= sink@ + rest);
            }
        } else {
            proof {
                assert(reindented_from(lines@, ind, sp, p, false)
                    == reindented_from(lines@, ind, sp, p + 1, false));
            }
        }
        position = position + 1;
    }

    proof {
        assert(reindented_from(lines@, ind, start_position as int, length as int, n_newlines > 0)
            == if start_position < length { lines@.subrange(start_position as int, length as int) } else { Seq::<char>::empty() });
    }
    if start_position < length {
        let segment = lines.substring_char(start_position, length);
        sink.append(segment);
    }
    proof {
        assert(sink@ =~= target);
    }
}

/// The decimal digit character for a value below ten.
pub open spec fn decimal_digit_char(d: int) -> char {
    seq!['0', '1', '2', '3', '4', '5', '6', '7', '8', '9'][d]
}

/// The decimal rendering of a number, most significant digit first.
pub open spec fn decimal_text(n: nat) -> Seq<char>
    decreases n,
{
    if n < 10 {
        seq![decimal_digit_char(n as int)]
    } else {
        decimal_text(n / 10) + seq![decimal_digit_char((n % 10) as int)]
    }
}

fn decimal_digit_str(d: usize) -> (r: &'static str)
    requires
        d < 10,
    ensures
        r@ == seq![decimal_digit_char(d as int)],
{
    proof {
        reveal_strlit("0");
        reveal_strlit("1");
        reveal_strlit("2");
        reveal_strlit("3");
        reveal_strlit("4");
        reveal_strlit("5");
        reveal_strlit("6");
        reveal_strlit("7");
        reveal_strlit("8");
        reveal_strlit("9");
    }
    match d {
        0 => {
            proof { assert("0"@ =~= seq![decimal_digit_char(0)]); }
            "0"
        },
        1 => {
            proof { assert("1"@ =~= seq![decimal_digit_char(1)]); }
            "1"
        },
        2 => {
            proof { assert("2"@ =~= seq![decimal_digit_char(2)]); }
            "2"
        },
        3 => {
            proof { assert("3"@ =~= seq![decimal_digit_char(3)]); }
            "3"
        },
        4 => {
            proof { assert("4"@ =~= seq![decimal_digit_char(4)]); }
            "4"
        },
        5 => {
            proof { assert("5"@ =~= seq![decimal_digit_char(5)]); }
            "5"
        },
        6 => {
            proof { assert("6"@ =~= seq![decimal_digit_char(6)]); }
            "6"
        },
        7 => {
            proof { assert("7"@ =~= seq![decimal_digit_char(7)]); }
            "7"
        },
        8 => {
            proof { assert("8"@ =~= seq![decimal_digit_char(8)]); }
            "8"
        },
        _ => {
            proof { assert("9"@ =~= seq![decimal_digit_char(9)]); }
            "9"
        },
    }
}

/// Renders a number in decimal.
pub fn usize_to_string(n: usize) -> (r: String)
    ensures
        r@ == decimal_text(n as nat),
    decreases n,
{
    if n < 10 {
        String::from_str(decimal_digit_str(n))
    } else {
        let mut s = usize_to_string(n / 10);
        s.append(decimal_digit_str(n % 10));
        s
    }
}


} // verus!

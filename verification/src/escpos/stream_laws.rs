//! Properties of the streaming parser that hold for every input.

use vstd::prelude::*;
use crate::escpos::codepage::{decoded, lemma_decode_bytewise};
use crate::escpos::commands::Command;
use crate::escpos::parser::{
    esc_command, gs_command, is_control, lemma_step_progress, lemma_text_run_len, optional, parse_all,
    step, text_run_len, ParseState, Step, CR, ESC, GS, LF,
};

verus! {

proof fn lemma_text_run_shape(d: Seq<u8>)
    ensures
        text_run_len(d) <= d.len(),
        forall|k: int| 0 <= k < text_run_len(d) ==> !is_control(#[trigger] d[k]),
        text_run_len(d) < d.len() ==> is_control(d[text_run_len(d) as int]),
    decreases d.len(),
{
    if d.len() > 0 && !is_control(d[0]) {
        let t = d.drop_first();
        lemma_text_run_shape(t);
        assert forall|k: int| 0 <= k < text_run_len(d) implies !is_control(#[trigger] d[k]) by {
            if k > 0 {
                assert(d[k] == t[k - 1]);
            }
        }
        if text_run_len(d) < d.len() {
            assert(d[text_run_len(d) as int] == t[text_run_len(t) as int]);
        }
    }
}

proof fn lemma_text_run_extends(a: Seq<u8>, b: Seq<u8>)
    requires
        b.len() == 0 || is_control(b[0]) || text_run_len(a) < a.len(),
    ensures
        text_run_len(a + b) == text_run_len(a),
{
    lemma_text_run_shape(a);
    let n = text_run_len(a);
    let d = a + b;
    assert forall|k: int| 0 <= k < n implies !is_control(#[trigger] d[k]) by {
        assert(d[k] == a[k]);
    }
    if n < a.len() {
        assert(d[n as int] == a[n as int]);
    } else if b.len() > 0 {
        assert(d[n as int] == b[0]);
    }
    lemma_text_run_len(d, n);
}

/// An ESC command depends only on its own bytes (and on no setting): once
/// it has fully arrived, more bytes after it do not change it; and while
/// `a` followed by more bytes is still incomplete, `a` alone is too.
pub proof fn lemma_esc_extends(a: Seq<u8>, b: Seq<u8>)
    ensures
        esc_command(a) is Some ==> esc_command(a + b) == esc_command(a),
        esc_command(a + b) is None ==> esc_command(a) is None,
{
    if esc_command(a) is Some {
        lemma_esc_extends_some(a, b);
    }
}

proof fn lemma_esc_extends_some(a: Seq<u8>, b: Seq<u8>)
    requires
        esc_command(a) is Some,
    ensures
        esc_command(a + b) == esc_command(a),
{
    let d = a + b;
    assert forall|k: int| 0 <= k < a.len() implies d[k] == a[k] by {}
    assert(d.take(2) =~= a.take(2));
    if a.len() >= 5 {
        let columns = a[3] + 256 * a[4];
        let image_len = if a[2] == 32 || a[2] == 33 {
            3 * columns
        } else {
            columns
        };
        let end = 5 + image_len;
        if end <= a.len() {
            assert(d.subrange(5, end) =~= a.subrange(5, end));
        }
    }
}

/// A GS command depends only on its own bytes and the settings: once it
/// has fully arrived, more bytes after it do not change it; and while `a`
/// followed by more bytes is still incomplete, `a` alone is too.
pub proof fn lemma_gs_extends(st: ParseState, a: Seq<u8>, b: Seq<u8>)
    ensures
        gs_command(st, a) is Some ==> gs_command(st, a + b) == gs_command(st, a),
        gs_command(st, a + b) is None ==> gs_command(st, a) is None,
{
    if gs_command(st, a) is Some {
        lemma_gs_extends_some(st, a, b);
    }
}

proof fn lemma_gs_extends_some(st: ParseState, a: Seq<u8>, b: Seq<u8>)
    requires
        gs_command(st, a) is Some,
    ensures
        gs_command(st, a + b) == gs_command(st, a),
{
    let d = a + b;
    assert forall|k: int| 0 <= k < a.len() implies d[k] == a[k] by {}
    assert(d.take(2) =~= a.take(2));
    if a.len() >= 5 {
        assert(d.take(3) =~= a.take(3));
    }
    if a.len() >= 8 {
        let end = 8 + (a[4] + 256 * a[5]) * (a[6] + 256 * a[7]);
        if end <= a.len() {
            assert(d.subrange(8, end) =~= a.subrange(8, end));
        }
    }
    if a.len() >= 5 {
        let total = 5 + a[3] + 256 * a[4];
        if total <= a.len() {
            assert(d.take(total) =~= a.take(total));
            if total >= 7 {
                assert(d.subrange(7, total) =~= a.subrange(7, total));
            }
        }
    }
}

proof fn lemma_step_extends(st: ParseState, a: Seq<u8>, b: Seq<u8>)
    requires
        a.len() >= 1,
        b.len() == 0 || is_control(b[0]) || text_run_len(a) < a.len(),
        step(st, a) is Emit,
    ensures
        step(st, a + b) == step(st, a),
{
    let d = a + b;
    assert(d[0] == a[0]);
    if a[0] == ESC {
        lemma_esc_extends(a, b);
    } else if a[0] == GS {
        lemma_gs_extends(st, a, b);
    } else if a[0] != LF && a[0] != CR {
        lemma_text_run_extends(a, b);
        lemma_text_run_shape(a);
        let n = text_run_len(a);
        assert(d.take(n as int) =~= a.take(n as int));
    }
}

/// Parsing never takes more bytes than there are.
pub proof fn lemma_consumed_bound(st: ParseState, d: Seq<u8>)
    ensures
        parse_all(st, d).consumed <= d.len(),
    decreases d.len(),
{
    if d.len() > 0 {
        lemma_step_progress(st, d);
        if let Step::Emit { command, consumed, next } = step(st, d) {
            lemma_consumed_bound(next, d.skip(consumed as int));
        }
    }
}

/// Chunking does not matter, except inside a run of text: parsing `a` and
/// then, from the settings it leaves, the bytes it left over followed by
/// `b`, gives the same commands, the same number of bytes taken and the
/// same settings as parsing `a + b` at once, whenever `b` begins a new
/// command (it is empty or starts with ESC, GS, LF or CR) or `a` ends in the
/// middle of an ESC or GS command. Two calls of
/// `EscPosParser::parse_stream` with `a` and `b` are exactly this. (A run of
/// text cut by the end of `a` and continued by `b` comes out as two text
/// commands instead of one.)
#[verifier::spinoff_prover]
#[verifier::rlimit(50)]
pub proof fn lemma_split_stream(st: ParseState, a: Seq<u8>, b: Seq<u8>)
    requires
        b.len() == 0 || is_control(b[0]) || parse_all(st, a).consumed < a.len(),
    ensures
        ({
            let first = parse_all(st, a);
            let second = parse_all(first.state, a.skip(first.consumed as int) + b);
            let whole = parse_all(st, a + b);
            &&& whole.commands == first.commands + second.commands
            &&& whole.consumed == first.consumed + second.consumed
            &&& whole.state == second.state
        }),
    decreases a.len(),
{
    let first = parse_all(st, a);
    if a.len() == 0 {
        assert(a.skip(0) + b =~= a + b);
        assert(first.commands + parse_all(st, a + b).commands =~= parse_all(st, a + b).commands);
    } else {
        match step(st, a) {
            Step::Wait => {
                assert(a.skip(0) =~= a);
                assert(first.commands + parse_all(st, a + b).commands =~= parse_all(
                    st,
                    a + b,
                ).commands);
            },
            Step::Emit { command, consumed, next } => {
                lemma_step_progress(st, a);
                lemma_text_run_shape(a);
                lemma_step_extends(st, a, b);
                let tail = a.skip(consumed as int);
                assert((a + b).skip(consumed as int) =~= tail + b);
                lemma_consumed_bound(next, tail);
                lemma_split_stream(next, tail, b);
                let rest = parse_all(next, tail);
                assert(tail.skip(rest.consumed as int) =~= a.skip(first.consumed as int));
                let second = parse_all(rest.state, tail.skip(rest.consumed as int) + b);
                assert(optional(command) + (rest.commands + second.commands) =~= (optional(command)
                    + rest.commands) + second.commands);
            },
        }
    }
}

/// What the parser keeps for later is never a complete command: parsing the
/// leftover bytes again, with the settings the parse ended in, takes nothing,
/// prints nothing and changes nothing. The leftover is empty or starts with
/// an ESC or GS command still waiting for its bytes.
pub proof fn lemma_leftover_waits(st: ParseState, d: Seq<u8>)
    ensures
        ({
            let parsed = parse_all(st, d);
            let leftover = d.skip(parsed.consumed as int);
            &&& parse_all(parsed.state, leftover).commands.len() == 0
            &&& parse_all(parsed.state, leftover).consumed == 0
            &&& parse_all(parsed.state, leftover).state == parsed.state
            &&& (leftover.len() == 0 || leftover[0] == ESC || leftover[0] == GS)
        }),
    decreases d.len(),
{
    if d.len() > 0 {
        lemma_step_progress(st, d);
        match step(st, d) {
            Step::Wait => {
                assert(d.skip(0) =~= d);
            },
            Step::Emit { command, consumed, next } => {
                let tail = d.skip(consumed as int);
                lemma_leftover_waits(next, tail);
                let rest = parse_all(next, tail);
                lemma_consumed_bound(next, tail);
                assert(tail.skip(rest.consumed as int) =~= d.skip((consumed + rest.consumed) as int));
            },
        }
    }
}

/// The QR module size stays within `1..=16` (a new parser starts at 3, and
/// `GS ( k` fn 67 clamps every value it sets).
pub proof fn lemma_module_size_in_range(st: ParseState, d: Seq<u8>)
    requires
        1 <= st.qr_module_size <= 16,
    ensures
        1 <= parse_all(st, d).state.qr_module_size <= 16,
    decreases d.len(),
{
    if d.len() > 0 {
        lemma_step_progress(st, d);
        if let Step::Emit { command, consumed, next } = step(st, d) {
            lemma_module_size_in_range(next, d.skip(consumed as int));
        }
    }
}

/// Text commands are never empty: a run of text holds at least one byte,
/// and each byte decodes to one character.
pub proof fn lemma_text_commands_not_empty(st: ParseState, d: Seq<u8>)
    ensures
        forall|i: int|
            0 <= i < parse_all(st, d).commands.len() ==> (#[trigger] parse_all(st, d).commands[i] matches Command::Text(
                text,
            ) ==> text.len() > 0),
    decreases d.len(),
{
    if d.len() > 0 {
        lemma_step_progress(st, d);
        if let Step::Emit { command, consumed, next } = step(st, d) {
            lemma_text_commands_not_empty(next, d.skip(consumed as int));
            if d[0] != ESC && d[0] != GS && d[0] != LF && d[0] != CR {
                lemma_text_run_shape(d);
            }
        }
    }
}

/// Puts a command in front of commands whose adjacent texts are already
/// joined: a text command joins a text command that follows it.
pub open spec fn prepend_merged(command: Command, merged: Seq<Command>) -> Seq<Command> {
    if merged.len() > 0 {
        match (command, merged[0]) {
            (Command::Text(x), Command::Text(y)) => seq![Command::Text(x + y)] + merged.drop_first(),
            _ => seq![command] + merged,
        }
    } else {
        seq![command]
    }
}

/// The commands with every run of adjacent text commands joined into one.
pub open spec fn merge_texts(commands: Seq<Command>) -> Seq<Command>
    decreases commands.len(),
{
    if commands.len() == 0 {
        Seq::empty()
    } else {
        prepend_merged(commands[0], merge_texts(commands.drop_first()))
    }
}

proof fn lemma_merge_front(command: Command, rest: Seq<Command>)
    ensures
        merge_texts(seq![command] + rest) == prepend_merged(command, merge_texts(rest)),
{
    assert((seq![command] + rest).drop_first() =~= rest);
}

proof fn lemma_merge_optional(command: Option<Command>, x: Seq<Command>, y: Seq<Command>)
    requires
        merge_texts(x) == merge_texts(y),
    ensures
        merge_texts(optional(command) + x) == merge_texts(optional(command) + y),
{
    match command {
        Some(c) => {
            lemma_merge_front(c, x);
            lemma_merge_front(c, y);
        },
        None => {
            assert(optional(command) + x =~= x);
            assert(optional(command) + y =~= y);
        },
    }
}

proof fn lemma_prepend_two_texts(x: Seq<char>, y: Seq<char>, merged: Seq<Command>)
    ensures
        prepend_merged(Command::Text(x), prepend_merged(Command::Text(y), merged)) == prepend_merged(
            Command::Text(x + y),
            merged,
        ),
{
    if merged.len() > 0 {
        if let Command::Text(z) = merged[0] {
            assert((x + y) + z =~= x + (y + z));
            let inner = seq![Command::Text(y + z)] + merged.drop_first();
            assert(inner.drop_first() =~= merged.drop_first());
        } else {
            let inner = seq![Command::Text(y)] + merged;
            assert(inner.drop_first() =~= merged);
        }
    } else {
        let inner = seq![Command::Text(y)];
        assert(inner.drop_first() =~= merged);
    }
}

proof fn lemma_text_run_through(a: Seq<u8>, b: Seq<u8>)
    requires
        forall|k: int| 0 <= k < a.len() ==> !is_control(#[trigger] a[k]),
    ensures
        text_run_len(a + b) == a.len() + text_run_len(b),
    decreases a.len(),
{
    if a.len() == 0 {
        assert(a + b =~= b);
    } else {
        assert((a + b)[0] == a[0]);
        assert((a + b).drop_first() =~= a.drop_first() + b);
        assert forall|k: int| 0 <= k < a.drop_first().len() implies !is_control(
            #[trigger] a.drop_first()[k],
        ) by {
            assert(a.drop_first()[k] == a[k + 1]);
        }
        lemma_text_run_through(a.drop_first(), b);
    }
}

/// Parsing `a`, and then the leftover followed by `b`, agrees with parsing
/// `a + b` at once up to joining adjacent texts: the same commands once
/// adjacent texts are joined, the same bytes taken, the same settings and
/// the same leftover.
pub open spec fn split_agrees(st: ParseState, a: Seq<u8>, b: Seq<u8>) -> bool {
    let first = parse_all(st, a);
    let second = parse_all(first.state, a.skip(first.consumed as int) + b);
    let whole = parse_all(st, a + b);
    &&& merge_texts(first.commands + second.commands) == merge_texts(whole.commands)
    &&& whole.consumed == first.consumed + second.consumed
    &&& whole.state == second.state
    &&& (a + b).skip(whole.consumed as int) == (a.skip(first.consumed as int) + b).skip(
        second.consumed as int,
    )
}

proof fn lemma_leftover_same(st: ParseState, a: Seq<u8>, b: Seq<u8>)
    requires
        parse_all(st, a + b).consumed == parse_all(st, a).consumed + parse_all(
            parse_all(st, a).state,
            a.skip(parse_all(st, a).consumed as int) + b,
        ).consumed,
    ensures
        (a + b).skip(parse_all(st, a + b).consumed as int) == (a.skip(
            parse_all(st, a).consumed as int,
        ) + b).skip(
            parse_all(parse_all(st, a).state, a.skip(parse_all(st, a).consumed as int) + b).consumed as int,
        ),
{
    let first = parse_all(st, a);
    let second = parse_all(first.state, a.skip(first.consumed as int) + b);
    lemma_consumed_bound(st, a);
    lemma_consumed_bound(first.state, a.skip(first.consumed as int) + b);
    assert((a + b).skip(parse_all(st, a + b).consumed as int) =~= (a.skip(first.consumed as int)
        + b).skip(second.consumed as int));
}

/// `a` is one run of text and `b` continues it.
proof fn lemma_split_text_run(st: ParseState, a: Seq<u8>, b: Seq<u8>)
    requires
        a.len() > 0,
        text_run_len(a) == a.len(),
        b.len() > 0,
        !is_control(b[0]),
    ensures
        split_agrees(st, a, b),
{
    let first = parse_all(st, a);
    let second = parse_all(first.state, a.skip(first.consumed as int) + b);
    let whole = parse_all(st, a + b);
    lemma_text_run_shape(a);
    let n = a.len();
    assert(!is_control(a[0]));
    assert(a.skip(n as int) =~= Seq::<u8>::empty());
    assert(a.take(n as int) =~= a);
    assert(a[0] != ESC && a[0] != GS && a[0] != LF && a[0] != CR);
    assert(step(st, a) == Step::Emit {
        command: Some(Command::Text(decoded(st.codepage, a.take(n as int)))),
        consumed: n,
        next: st,
    });
    let e = a.skip(n as int);
    assert(e.len() == 0);
    assert(parse_all(st, e).consumed == 0 && parse_all(st, e).commands.len() == 0);
    assert(first.consumed == n);
    assert(a.skip(first.consumed as int) + b =~= b);
    lemma_step_progress(st, b);
    lemma_text_run_through(a, b);
    let m = text_run_len(b);
    let text_a = decoded(st.codepage, a);
    let text_b = decoded(st.codepage, b.take(m as int));
    assert((a + b).take((n + m) as int) =~= a + b.take(m as int));
    lemma_decode_bytewise(st.codepage, a, b.take(m as int));
    assert((a + b)[0] == a[0]);
    assert((a + b).skip((n + m) as int) =~= b.skip(m as int));
    let r = parse_all(st, b.skip(m as int));
    assert(first.commands =~= seq![Command::Text(text_a)]);
    assert(second.commands =~= seq![Command::Text(text_b)] + r.commands);
    assert(whole.commands =~= seq![Command::Text(text_a + text_b)] + r.commands);
    lemma_merge_front(Command::Text(text_b), r.commands);
    assert(first.commands + second.commands =~= seq![Command::Text(text_a)] + (seq![
        Command::Text(text_b)] + r.commands));
    lemma_merge_front(Command::Text(text_a), seq![Command::Text(text_b)] + r.commands);
    lemma_merge_front(Command::Text(text_a + text_b), r.commands);
    lemma_prepend_two_texts(text_a, text_b, merge_texts(r.commands));
    lemma_leftover_same(st, a, b);
}

/// The first command of `a` is whole in `a`, whatever follows.
proof fn lemma_split_after_step(st: ParseState, a: Seq<u8>, b: Seq<u8>)
    requires
        a.len() > 0,
        step(st, a) is Emit,
        !(text_run_len(a) == a.len() && !is_control(a[0])),
        split_agrees(step(st, a)->next, a.skip(step(st, a)->consumed as int), b),
    ensures
        split_agrees(st, a, b),
{
    let first = parse_all(st, a);
    let second = parse_all(first.state, a.skip(first.consumed as int) + b);
    let whole = parse_all(st, a + b);
    lemma_step_progress(st, a);
    lemma_text_run_shape(a);
    if let Step::Emit { command, consumed, next } = step(st, a) {
        let tail = a.skip(consumed as int);
        let rest = parse_all(next, tail);
        lemma_consumed_bound(next, tail);
        lemma_step_extends(st, a, b);
        assert((a + b).skip(consumed as int) =~= tail + b);
        assert(tail.skip(rest.consumed as int) =~= a.skip(first.consumed as int));
        let whole_rest = parse_all(next, tail + b);
        lemma_merge_optional(command, rest.commands + second.commands, whole_rest.commands);
        assert(optional(command) + (rest.commands + second.commands) =~= first.commands
            + second.commands);
        lemma_leftover_same(st, a, b);
    }
}

/// Chunking never changes what is parsed, up to where text is cut: parsing
/// `a` and then, from the settings it leaves, the bytes it left over
/// followed by `b`, gives the same commands as parsing `a + b` at once once
/// adjacent text commands are joined, takes the same bytes, and ends with
/// the same settings and the same leftover. A chunk boundary can only split
/// a text command in two. Two calls of `EscPosParser::parse_stream` with
/// `a` and `b` are exactly this.
pub proof fn lemma_split_stream_merged(st: ParseState, a: Seq<u8>, b: Seq<u8>)
    ensures
        split_agrees(st, a, b),
    decreases a.len(),
{
    let first = parse_all(st, a);
    if b.len() == 0 || is_control(b[0]) || first.consumed < a.len() {
        lemma_split_stream(st, a, b);
        let second = parse_all(first.state, a.skip(first.consumed as int) + b);
        assert(first.commands + second.commands == parse_all(st, a + b).commands);
        lemma_leftover_same(st, a, b);
    } else if a.len() == 0 {
        assert(a.skip(0) + b =~= a + b);
        let second = parse_all(first.state, a.skip(first.consumed as int) + b);
        assert(first.commands + second.commands =~= second.commands);
        lemma_leftover_same(st, a, b);
    } else {
        lemma_step_progress(st, a);
        lemma_text_run_shape(a);
        if text_run_len(a) == a.len() && !is_control(a[0]) {
            lemma_split_text_run(st, a, b);
        } else {
            if let Step::Emit { command, consumed, next } = step(st, a) {
                lemma_split_stream_merged(next, a.skip(consumed as int), b);
                lemma_split_after_step(st, a, b);
            }
        }
    }
}

} // verus!

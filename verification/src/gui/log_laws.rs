//! Properties of the command log's filter and listing, over all inputs.

use vstd::prelude::*;
use crate::escpos::commands::Command;
use crate::gui::command_log::{contains_chars, count_set, lowercase, passes_filter, recent_matches};
use crate::gui::debug_form::debug_form;

verus! {

/// The name of a command's variant, which its `Debug` form starts with.
pub open spec fn variant_name(command: Command) -> Seq<char> {
    match command {
        Command::Text(_) => "Text"@,
        Command::NewLine => "NewLine"@,
        Command::LineFeed => "LineFeed"@,
        Command::CarriageReturn => "CarriageReturn"@,
        Command::SetFont(_) => "SetFont"@,
        Command::SetFontSize(_) => "SetFontSize"@,
        Command::SetJustification(_) => "SetJustification"@,
        Command::SetEmphasis(_) => "SetEmphasis"@,
        Command::SetUnderline(_) => "SetUnderline"@,
        Command::SetItalic(_) => "SetItalic"@,
        Command::SetLineHeight(_) => "SetLineHeight"@,
        Command::CutPaper => "CutPaper"@,
        Command::PrintImage(_) => "PrintImage"@,
        Command::PrintRasterImage { .. } => "PrintRasterImage"@,
        Command::SetCodepage(_) => "SetCodepage"@,
        Command::InitializePrinter => "InitializePrinter"@,
        Command::Unknown(_) => "Unknown"@,
    }
}

/// Whether a variant carries fields.
pub open spec fn has_fields(command: Command) -> bool {
    !(command is NewLine || command is LineFeed || command is CarriageReturn || command is CutPaper
        || command is InitializePrinter)
}

/// The `Debug` form of a command other than text starts with the name of
/// its variant; a variant without fields is written as its bare name, one
/// with fields continues with `(` (a tuple variant) or ` {` (the raster
/// image's named fields).
pub proof fn law_debug_form_names_the_variant(command: Command)
    requires
        !(command is Text),
    ensures
        ({
            let name = variant_name(command);
            let form = debug_form(command);
            &&& form.len() > name.len() || !has_fields(command)
            &&& form.take(name.len() as int) == name
            &&& !has_fields(command) ==> form == name
            &&& has_fields(command) ==> (form[name.len() as int] == '(' || form[name.len() as int] == ' ')
        }),
{
    let name = variant_name(command);
    let form = debug_form(command);
    reveal_strlit("(");
    reveal_strlit(")");
    reveal_strlit("PrintRasterImage { width_bytes: ");
    reveal_strlit("PrintRasterImage");
    match command {
        Command::SetFont(_) => reveal_strlit("SetFont"),
        Command::SetFontSize(_) => reveal_strlit("SetFontSize"),
        Command::SetJustification(_) => reveal_strlit("SetJustification"),
        Command::SetEmphasis(_) => reveal_strlit("SetEmphasis"),
        Command::SetUnderline(_) => reveal_strlit("SetUnderline"),
        Command::SetItalic(_) => reveal_strlit("SetItalic"),
        Command::SetLineHeight(_) => reveal_strlit("SetLineHeight"),
        Command::PrintImage(_) => reveal_strlit("PrintImage"),
        Command::SetCodepage(_) => reveal_strlit("SetCodepage"),
        Command::Unknown(_) => reveal_strlit("Unknown"),
        _ => {},
    }
    if has_fields(command) {
        assert(form.take(name.len() as int) =~= name);
    }
}

/// The filter searches a text command's own text and every other command's
/// `Debug` form: a command other than text is found by exactly the filters
/// that find a text command holding its `Debug` form. In particular a
/// filter equal to a command's `Debug` form always finds it.
pub proof fn law_filter_searches_debug_form(filter: Seq<char>, command: Command)
    requires
        !(command is Text),
    ensures
        passes_filter(filter, command) == passes_filter(filter, Command::Text(debug_form(command))),
        passes_filter(filter, command) == (filter.len() == 0 || contains_chars(
            lowercase(debug_form(command)),
            lowercase(filter),
        )),
        passes_filter(debug_form(command), command),
{
    let h = lowercase(debug_form(command));
    assert(h.subrange(0, 0int + h.len()) =~= h);
    assert(contains_chars(h, h));
}

/// A text command is found by the filters that occur in its text, ignoring
/// case; the empty filter finds every command.
pub proof fn law_filter_searches_text(filter: Seq<char>, text: Seq<char>, command: Command)
    ensures
        passes_filter(filter, Command::Text(text)) == (filter.len() == 0 || contains_chars(
            lowercase(text),
            lowercase(filter),
        )),
        passes_filter(Seq::empty(), command),
        passes_filter(text, Command::Text(text)),
{
    let h = lowercase(text);
    assert(h.subrange(0, 0int + h.len()) =~= h);
    assert(contains_chars(h, h));
}

/// Counting flags: a flag added at the end counts one when it is set and
/// nothing when it is not; counts add up over concatenations, and never
/// exceed the number of flags.
pub proof fn law_count_set(flags: Seq<bool>, more: Seq<bool>, flag: bool)
    ensures
        count_set(flags.push(flag)) == count_set(flags) + if flag {
            1nat
        } else {
            0nat
        },
        count_set(flags + more) == count_set(flags) + count_set(more),
        count_set(flags) <= flags.len(),
    decreases more.len(),
{
    assert(flags.push(flag).drop_last() =~= flags);
    lemma_count_bound(flags);
    if more.len() == 0 {
        assert(flags + more =~= flags);
    } else {
        law_count_set(flags, more.drop_last(), flag);
        assert((flags + more).drop_last() =~= flags + more.drop_last());
        assert((flags + more).last() == more.last());
    }
}

proof fn lemma_count_bound(flags: Seq<bool>)
    ensures
        count_set(flags) <= flags.len(),
    decreases flags.len(),
{
    if flags.len() > 0 {
        lemma_count_bound(flags.drop_last());
    }
}

/// The log lists, most recent first, the last `limit` history entries that
/// pass the filter: as many as pass, up to `limit`; each listed index is an
/// entry that passes; the indices strictly decrease; and every passing entry
/// more recent than the last one listed is listed (all of them, when fewer
/// than `limit` are listed).
pub proof fn law_recent_matches(matching: Seq<bool>, limit: nat)
    requires
        matching.len() <= usize::MAX,
    ensures
        ({
            let shown = recent_matches(matching, limit);
            &&& shown.len() == if limit < count_set(matching) {
                limit
            } else {
                count_set(matching)
            }
            &&& forall|i: int| 0 <= i < shown.len() ==> #[trigger] shown[i] < matching.len() && matching[shown[i] as int]
            &&& forall|i: int, j: int| 0 <= i < j < shown.len() ==> #[trigger] shown[i] > #[trigger] shown[j]
            &&& forall|k: int|
                0 <= k < matching.len() && #[trigger] matching[k] && (shown.len() < limit || (shown.len() > 0
                    && k > shown.last())) ==> shown.contains(k as usize)
        }),
    decreases matching.len(),
{
    let shown = recent_matches(matching, limit);
    if matching.len() == 0 || limit == 0 {
        lemma_count_bound(matching);
        if matching.len() == 0 {
        }
    } else {
        let n = matching.len();
        let front = matching.drop_last();
        assert forall|k: int| 0 <= k < n - 1 implies front[k] == matching[k] by {}
        if matching.last() {
            let rest = recent_matches(front, (limit - 1) as nat);
            law_recent_matches(front, (limit - 1) as nat);
            assert(shown == seq![(n - 1) as usize] + rest);
            assert(shown[0] == n - 1);
            assert forall|i: int| 0 <= i < shown.len() implies #[trigger] shown[i] < matching.len()
                && matching[shown[i] as int] by {
                if i > 0 {
                    assert(shown[i] == rest[i - 1]);
                }
            }
            assert forall|i: int, j: int| 0 <= i < j < shown.len() implies #[trigger] shown[i]
                > #[trigger] shown[j] by {
                assert(shown[j] == rest[j - 1]);
                if i > 0 {
                    assert(shown[i] == rest[i - 1]);
                }
            }
            assert forall|k: int|
                0 <= k < matching.len() && #[trigger] matching[k] && (shown.len() < limit || (shown.len() > 0
                    && k > shown.last())) implies shown.contains(k as usize) by {
                if k == n - 1 {
                    assert(shown[0] == k as usize);
                } else {
                    assert(front[k]);
                    if rest.len() > 0 {
                        assert(shown.last() == rest.last());
                    }
                    assert(rest.contains(k as usize));
                    let i = choose|i: int| 0 <= i < rest.len() && rest[i] == k as usize;
                    assert(shown[i + 1] == k as usize);
                }
            }
        } else {
            law_recent_matches(front, limit);
            assert forall|k: int|
                0 <= k < matching.len() && #[trigger] matching[k] && (shown.len() < limit || (shown.len() > 0
                    && k > shown.last())) implies shown.contains(k as usize) by {
                assert(k != n - 1);
                assert(front[k]);
            }
        }
    }
}

} // verus!

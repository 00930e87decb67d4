//! How a message is laid out on the screen, above the row of buttons.
use vstd::prelude::*;
use vstd::string::*;

use crate::text::is_control;

verus! {

/// The characters of a line.
pub const COLUMNS: usize = 24;

/// The lines of a message.
pub const LINES: usize = 5;

/// The characters of each of several texts.
pub open spec fn lines_view(lines: Seq<String>) -> Seq<Seq<char>> {
    lines.map_values(|line: String| line@)
}

/// The lines of a text, however many: each newline and each character beyond the width of
/// the screen begins another one, and control characters do not show.
pub open spec fn wrapped(text: Seq<char>) -> Seq<Seq<char>>
    decreases text.len(),
{
    if text.len() == 0 {
        seq![Seq::empty()]
    } else {
        let lines = wrapped(text.drop_last());
        let c = text.last();
        if c == '\n' {
            lines.push(Seq::empty())
        } else {
            let shown = if crate::text::control(c) {
                Seq::empty()
            } else {
                seq![c]
            };
            if lines.last().len() == COLUMNS {
                lines.push(shown)
            } else {
                lines.drop_last().push(lines.last() + shown)
            }
        }
    }
}

/// A line that tells that more would follow.
pub open spec fn cut_off(line: Seq<char>) -> Seq<char> {
    line.take(if line.len() >= 3 {
        line.len() - 3
    } else {
        0
    }) + "..."@
}

/// Whether all lines of a text find room on the screen.
pub open spec fn fits(text: Seq<char>) -> bool {
    wrapped(text).len() <= LINES
}

/// The lines that the screen shows of a text.
pub open spec fn shown_lines(text: Seq<char>) -> Seq<Seq<char>> {
    if fits(text) {
        wrapped(text)
    } else {
        wrapped(text).take(LINES - 1).push(cut_off(wrapped(text)[LINES - 1]))
    }
}

/// The characters of a text that show.
pub open spec fn visible(text: Seq<char>) -> Seq<char>
    decreases text.len(),
{
    if text.len() == 0 {
        text
    } else if crate::text::control(text.last()) {
        visible(text.drop_last())
    } else {
        visible(text.drop_last()).push(text.last())
    }
}

/// Several lines as one text.
pub open spec fn run_together(lines: Seq<Seq<char>>) -> Seq<char>
    decreases lines.len(),
{
    if lines.len() == 0 {
        Seq::empty()
    } else {
        run_together(lines.drop_last()) + lines.last()
    }
}

proof fn lemma_wrapped_nonempty(text: Seq<char>)
    ensures
        wrapped(text).len() >= 1,
    decreases text.len(),
{
    if text.len() > 0 {
        lemma_wrapped_nonempty(text.drop_last());
    }
}

/// What follows changes only the last line.
proof fn lemma_finished_lines_stay(text: Seq<char>, n: int)
    requires
        0 <= n <= text.len(),
    ensures
        wrapped(text.take(n)).len() <= wrapped(text).len(),
        forall|i: int|
            0 <= i < wrapped(text.take(n)).len() - 1 ==> #[trigger] wrapped(text)[i] == wrapped(
                text.take(n),
            )[i],
    decreases text.len() - n,
{
    if n < text.len() {
        lemma_finished_lines_stay(text, n + 1);
        lemma_wrapped_nonempty(text.take(n));
        assert(text.take(n + 1).drop_last() =~= text.take(n));
        assert forall|i: int| 0 <= i < wrapped(text.take(n)).len() - 1 implies #[trigger] wrapped(
            text,
        )[i] == wrapped(text.take(n))[i] by {
            assert(wrapped(text.take(n + 1))[i] == wrapped(text.take(n))[i]);
        }
    } else {
        assert(text.take(n) =~= text);
    }
}

fn mark_cut_off(line: &str) -> (marked: String)
    ensures
        marked@ == cut_off(line@),
{
    let n: usize = line.unicode_len();
    let kept: usize = if n >= 3 {
        n - 3
    } else {
        0
    };
    let head = line.substring_char(0, kept);
    assert(line@.subrange(0, kept as int) =~= line@.take(kept as int));
    crate::text::after_each_other(head, "...")
}

/// The lines that the screen shows of a text, and whether it shows only part of them.
pub fn layout_message(text: &str) -> (layout: (Vec<String>, bool))
    ensures
        lines_view(layout.0@) == shown_lines(text@),
        layout.1 == !fits(text@),
{
    let n: usize = text.unicode_len();
    let mut lines: Vec<String> = Vec::new();
    let mut line = String::new();
    let mut width: usize = 0;
    let mut i: usize = 0;
    proof {
        assert(text@.take(0) =~= Seq::<char>::empty());
        assert(lines_view(lines@).push(line@) =~= seq![Seq::<char>::empty()]);
    }
    while i < n
        invariant
            i <= n == text@.len(),
            lines@.len() < LINES,
            width == line@.len() <= COLUMNS,
            lines_view(lines@).push(line@) == wrapped(text@.take(i as int)),
        decreases n - i,
    {
        let c = text.get_char(i);
        proof {
            assert(text@.take(i + 1).drop_last() =~= text@.take(i as int));
            assert(wrapped(text@.take(i as int)).drop_last() =~= lines_view(lines@));
            assert(wrapped(text@.take(i as int)).last() == line@);
        }
        if c == '\n' || width == COLUMNS {
            if lines.len() == LINES - 1 {
                proof {
                    let all = wrapped(text@);
                    lemma_finished_lines_stay(text@, i + 1);
                    assert(wrapped(text@.take(i + 1)).len() == LINES + 1);
                    assert forall|k: int| 0 <= k < LINES implies all[k] == wrapped(
                        text@.take(i as int),
                    )[k] by {
                        assert(wrapped(text@.take(i + 1))[k] == wrapped(text@.take(i as int))[k]);
                    }
                    assert(all.take(LINES - 1) =~= lines_view(lines@));
                    assert(all[LINES - 1] == line@);
                }
                let ghost before = lines@;
                lines.push(mark_cut_off(line.as_str()));
                assert(lines_view(lines@) =~= lines_view(before).push(cut_off(line@)));
                return (lines, true);
            }
            let ghost before = lines@;
            let ghost done = line@;
            lines.push(line);
            line = String::new();
            width = 0;
            assert(lines_view(lines@) =~= lines_view(before).push(done));
            if c != '\n' && !is_control(c) {
                line.push(c);
                width = 1;
            }
            proof {
                assert(c == '\n' ==> line@ =~= Seq::<char>::empty());
                assert(c != '\n' && !crate::text::control(c) ==> line@ =~= seq![c]);
                assert(line@.len() == 0 ==> line@ =~= Seq::<char>::empty());
            }
        } else {
            let ghost done = line@;
            if !is_control(c) {
                line.push(c);
                width += 1;
                assert(line@ =~= done + seq![c]);
            } else {
                assert(line@ =~= done + Seq::<char>::empty());
            }
        }
        i += 1;
    }
    assert(text@.take(n as int) =~= text@);
    let ghost before = lines@;
    let ghost done = line@;
    lines.push(line);
    assert(lines_view(lines@) =~= lines_view(before).push(done));
    (lines, false)
}

/// Whether a message can be shown in full above the button row.
pub fn message_fits(text: &str) -> (yes: bool)
    ensures
        yes == fits(text@),
{
    !layout_message(text).1
}

proof fn lemma_widths(text: Seq<char>)
    ensures
        wrapped(text).len() >= 1,
        forall|i: int|
            0 <= i < wrapped(text).len() ==> (#[trigger] wrapped(text)[i]).len() <= COLUMNS,
    decreases text.len(),
{
    if text.len() > 0 {
        lemma_widths(text.drop_last());
    }
}

/// The screen never shows more lines, nor longer ones, than it has room for.
pub proof fn law_message_stays_on_the_screen(text: Seq<char>)
    ensures
        1 <= shown_lines(text).len() <= LINES,
        forall|i: int|
            0 <= i < shown_lines(text).len() ==> (#[trigger] shown_lines(text)[i]).len() <= COLUMNS,
{
    lemma_widths(text);
    reveal_strlit("...");
}

/// Nothing that shows is lost when a text is broken into lines.
pub proof fn law_wrapping_loses_nothing(text: Seq<char>)
    ensures
        run_together(wrapped(text)) == visible(text),
    decreases text.len(),
{
    if text.len() == 0 {
        assert(wrapped(text).drop_last() =~= Seq::<Seq<char>>::empty());
        assert(run_together(wrapped(text).drop_last()) =~= Seq::<char>::empty());
        assert(run_together(wrapped(text)) =~= visible(text));
    } else {
        let before = text.drop_last();
        law_wrapping_loses_nothing(before);
        lemma_wrapped_nonempty(before);
        let lines = wrapped(before);
        let all = wrapped(text);
        if text.last() == '\n' || lines.last().len() == COLUMNS {
            assert(all.drop_last() =~= lines);
        } else {
            assert(all.drop_last() =~= lines.drop_last());
        }
        assert(run_together(all) =~= visible(text));
    }
}

/// A message that fits is shown in full: its lines run together are its visible characters.
/// One that does not fit ends in three dots.
pub proof fn law_fitting_message_is_shown_in_full(text: Seq<char>)
    ensures
        fits(text) ==> run_together(shown_lines(text)) == visible(text),
        !fits(text) ==> shown_lines(text).len() == LINES && shown_lines(text).last().skip(
            shown_lines(text).last().len() - 3,
        ) == "..."@,
{
    law_wrapping_loses_nothing(text);
    reveal_strlit("...");
    if !fits(text) {
        let last = shown_lines(text).last();
        assert(last.skip(last.len() - 3) =~= "..."@);
    }
}

/// A message without a newline fits if it has no more characters than the screen.
pub proof fn law_short_messages_fit(text: Seq<char>)
    requires
        text.len() <= COLUMNS * LINES,
        forall|i: int| 0 <= i < text.len() ==> #[trigger] text[i] != '\n',
    ensures
        fits(text),
{
    lemma_line_count(text);
}

proof fn lemma_line_count(text: Seq<char>)
    requires
        forall|i: int| 0 <= i < text.len() ==> #[trigger] text[i] != '\n',
    ensures
        wrapped(text).len() >= 1,
        text.len() > 0 ==> COLUMNS * (wrapped(text).len() - 1) + wrapped(text).last().len()
            <= text.len(),
        text.len() > 0 ==> COLUMNS * (wrapped(text).len() - 1) < text.len(),
        text.len() == 0 ==> wrapped(text).len() == 1,
    decreases text.len(),
{
    if text.len() > 0 {
        assert forall|i: int| 0 <= i < text.drop_last().len() implies #[trigger] text.drop_last()[i]
            != '\n' by {
            assert(text[i] != '\n');
        }
        assert(text[text.len() - 1] != '\n');
        lemma_line_count(text.drop_last());
        lemma_widths(text.drop_last());
    }
}

/// How a text without newlines is broken, if all its characters show: into lines of 24
/// characters, of which the last one takes what is left.
pub proof fn law_texts_are_broken_at_24_characters(text: Seq<char>, i: int)
    requires
        text.len() > 0,
        forall|j: int|
            0 <= j < text.len() ==> #[trigger] text[j] != '\n' && !crate::text::control(text[j]),
        0 <= i,
        24 * i < text.len(),
    ensures
        wrapped(text).len() == (text.len() + 23) / 24,
        wrapped(text)[i] == text.subrange(
            24 * i,
            if 24 * i + 24 <= text.len() {
                24 * i + 24
            } else {
                text.len() as int
            },
        ),
    decreases text.len(),
{
    let before = text.drop_last();
    let c = text.last();
    assert(text[text.len() - 1] == c);
    assert forall|j: int| 0 <= j < before.len() implies #[trigger] before[j] != '\n'
        && !crate::text::control(before[j]) by {
        assert(before[j] == text[j]);
    }
    let n = before.len() as int;
    if n == 0 {
        assert(wrapped(before) =~= seq![Seq::<char>::empty()]);
        assert(wrapped(text) =~= seq![seq![c]]);
        assert(wrapped(text)[0] =~= text.subrange(0, 1));
        assert(i == 0);
    } else {
        let last = (n - 1) / 24;
        law_texts_are_broken_at_24_characters(before, last);
        let lines = wrapped(before);
        assert(lines.len() == last + 1);
        assert(lines.last() == lines[last]);
        assert(lines.last().len() == n - 24 * last);
        if 24 * i < n {
            law_texts_are_broken_at_24_characters(before, i);
        }
        if lines.last().len() == 24 {
            assert(wrapped(text) == lines.push(seq![c]));
            if 24 * i < n {
                assert(wrapped(text)[i] == lines[i]);
                assert(lines[i] =~= text.subrange(24 * i, 24 * i + 24));
            } else {
                assert(i == last + 1);
                assert(seq![c] =~= text.subrange(24 * i, text.len() as int));
            }
        } else {
            assert(wrapped(text) == lines.drop_last().push(lines.last() + seq![c]));
            assert(24 * i < n);
            if i < last {
                assert(wrapped(text)[i] == lines[i]);
                assert(lines[i] =~= text.subrange(24 * i, 24 * i + 24));
            } else {
                assert(i == last);
                assert(lines.last() + seq![c] =~= text.subrange(24 * i, text.len() as int));
            }
        }
    }
}

/// A newline begins another line: the text after it is broken as if it stood alone.
pub proof fn law_newlines_begin_a_line(head: Seq<char>, tail: Seq<char>)
    ensures
        wrapped(head.push('\n') + tail) == wrapped(head) + wrapped(tail),
    decreases tail.len(),
{
    let text = head.push('\n') + tail;
    lemma_wrapped_nonempty(head);
    if tail.len() == 0 {
        assert(text =~= head.push('\n'));
        assert(text.drop_last() =~= head);
        assert(wrapped(text) =~= wrapped(head) + wrapped(tail));
    } else {
        let rest = tail.drop_last();
        law_newlines_begin_a_line(head, rest);
        lemma_wrapped_nonempty(rest);
        assert(text.drop_last() =~= head.push('\n') + rest);
        assert(text.last() == tail.last());
        let lines = wrapped(head) + wrapped(rest);
        assert(lines.last() == wrapped(rest).last());
        assert(lines.drop_last() =~= wrapped(head) + wrapped(rest).drop_last());
        assert(wrapped(text) =~= wrapped(head) + wrapped(tail));
    }
}

/// What the screen shows of a text: all of its lines if they are at most five, and otherwise the
/// first five, the fifth with three dots in the place of its end.
pub proof fn law_five_lines_are_shown(text: Seq<char>, i: int)
    requires
        0 <= i < 5,
    ensures
        fits(text) <==> wrapped(text).len() <= 5,
        wrapped(text).len() <= 5 ==> shown_lines(text) == wrapped(text),
        wrapped(text).len() > 5 ==> shown_lines(text).len() == 5,
        wrapped(text).len() > 5 && i < 4 ==> shown_lines(text)[i] == wrapped(text)[i],
        wrapped(text).len() > 5 && wrapped(text)[4].len() >= 3 ==> shown_lines(text)[4] == wrapped(
            text,
        )[4].take(wrapped(text)[4].len() - 3) + "..."@,
        wrapped(text).len() > 5 && wrapped(text)[4].len() < 3 ==> shown_lines(text)[4] == "..."@,
{
    if wrapped(text).len() > 5 && wrapped(text)[4].len() < 3 {
        assert(wrapped(text)[4].take(0) + "..."@ =~= "..."@);
    }
}

/// The characters that show are those that are no control characters, in their order.
pub proof fn law_visible_drops_control_characters(text: Seq<char>)
    ensures
        visible(text) == text.filter(
            |c: char| !(c as u32 <= 0x1f || 0x7f <= c as u32 && c as u32 <= 0x9f),
        ),
    decreases text.len(),
{
    reveal(Seq::filter);
    if text.len() > 0 {
        law_visible_drops_control_characters(text.drop_last());
    }
    assert(visible(text) =~= text.filter(
        |c: char| !(c as u32 <= 0x1f || 0x7f <= c as u32 && c as u32 <= 0x9f),
    ));
}

} // verus!

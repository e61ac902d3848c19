//! Laws of the help pages' layout.

use vstd::prelude::*;

use crate::help;
use crate::help::Row;
use crate::text;

verus! {

/// Nothing but spaces.
pub open spec fn is_blank(s: Seq<char>) -> bool {
    forall|i: int| 0 <= i < s.len() ==> #[trigger] s[i] == ' '
}

/// The bytes that a name takes.
pub open spec fn width(name: Seq<char>) -> nat {
    vstd::utf8::encode_utf8(name).len()
}

proof fn one_piece(s: Seq<char>)
    requires
        !s.contains('\n'),
    ensures
        text::pieces(s, '\n') == seq![s],
    decreases s.len(),
{
    if s.len() > 0 {
        let before = s.drop_last();
        assert forall|i: int| 0 <= i < before.len() implies #[trigger] before[i] != '\n' by {
            assert(s[i] == before[i]);
            assert(s.contains(s[i]));
        }
        assert(!before.contains('\n'));
        one_piece(before);
        assert(s[s.len() - 1] == s.last());
        assert(s.contains(s.last()));
        assert(before.push(s.last()) =~= s);
        assert(seq![before].drop_last().push(before.push(s.last())) =~= seq![s]);
    } else {
        assert(s =~= Seq::<char>::empty());
    }
}

proof fn one_piece_more(a: Seq<char>, b: Seq<char>)
    requires
        !b.contains('\n'),
    ensures
        text::pieces(a + seq!['\n'] + b, '\n') == text::pieces(a, '\n').push(b),
    decreases b.len(),
{
    let s = a + seq!['\n'] + b;
    if b.len() == 0 {
        assert(s.drop_last() =~= a);
        assert(b =~= Seq::<char>::empty());
    } else {
        let c = b.drop_last();
        assert forall|i: int| 0 <= i < c.len() implies #[trigger] c[i] != '\n' by {
            assert(b[i] == c[i]);
            assert(b.contains(b[i]));
        }
        assert(!c.contains('\n'));
        one_piece_more(a, c);
        assert(s.drop_last() =~= a + seq!['\n'] + c);
        assert(b[b.len() - 1] == b.last());
        assert(b.contains(b.last()));
        let before = text::pieces(a, '\n').push(c);
        assert(before.drop_last() =~= text::pieces(a, '\n'));
        assert(c.push(b.last()) =~= b);
    }
}

proof fn some_piece(s: Seq<char>)
    ensures
        text::pieces(s, '\n').len() > 0,
    decreases s.len(),
{
    if s.len() > 0 {
        some_piece(s.drop_last());
    }
}

/// A row gives the name behind four spaces and the description in its column: on
/// the same line where the name ends before the column, else on the next.
pub proof fn rows_are_laid_out(row: &Row, column: usize, gap: Seq<char>, start: String)
    requires
        !row.desc@.contains('\n'),
        is_blank(gap),
        4 + width(row.name@) < column ==> 4 + width(row.name@) + gap.len() == column,
        4 + width(row.name@) >= column ==> gap.len() == column,
    ensures
        forall|out: &mut String|
            *out == start && #[trigger] call_ensures(help::render_row, (out, row, column), ())
                ==> final(out)@ == start@ + ("    "@ + row.name@ + (if 4 + width(row.name@)
                < column {
                gap
            } else {
                seq!['\n'] + gap
            }) + row.desc@ + seq!['\n']),
{
    reveal_strlit("\n");
    assert("\n"@ =~= seq!['\n']);
    one_piece(row.desc@);
    let lines = text::pieces(row.desc@, '\n');
    assert(lines.skip(1) =~= Seq::<Seq<char>>::empty());
    assert(gap =~= help::spaces(gap.len()));
    let w = 4 + width(row.name@);
    if w < column {
        assert(help::row_text((row.name@, row.desc@), column as nat) =~= "    "@ + row.name@ + gap
            + row.desc@ + seq!['\n']);
    } else {
        assert(help::row_text((row.name@, row.desc@), column as nat) =~= "    "@ + row.name@ + (
        seq!['\n'] + gap) + row.desc@ + seq!['\n']);
    }
}

/// Each further line of a description stands in the column, on a line of its
/// own.
pub proof fn further_lines_are_laid_out(
    row: &Row,
    longer: &Row,
    line: Seq<char>,
    column: usize,
    gap: Seq<char>,
    start: String,
)
    requires
        row.name@ == longer.name@,
        longer.desc@ == row.desc@ + seq!['\n'] + line,
        !line.contains('\n'),
        is_blank(gap),
        gap.len() == column,
    ensures
        forall|out: &mut String, other: &mut String|
            *out == start && *other == start && #[trigger] call_ensures(
                help::render_row,
                (out, row, column),
                (),
            ) && #[trigger] call_ensures(help::render_row, (other, longer, column), ())
                ==> final(other)@ == final(out)@ + gap + line + seq!['\n'],
{
    reveal_strlit("\n");
    assert("\n"@ =~= seq!['\n']);
    one_piece_more(row.desc@, line);
    some_piece(row.desc@);
    let lines = text::pieces(row.desc@, '\n');
    let more = text::pieces(longer.desc@, '\n');
    assert(more.skip(1) =~= lines.skip(1).push(line));
    assert(more.skip(1).drop_last() =~= lines.skip(1));
    assert(gap =~= help::spaces(gap.len()));
    let short = help::row_text((row.name@, row.desc@), column as nat);
    let long = help::row_text((longer.name@, longer.desc@), column as nat);
    assert(long =~= short + gap + line + seq!['\n']);
    assert(start@ + long =~= start@ + short + gap + line + seq!['\n']);
}

/// A section without rows is nothing; one of a single row is headed by its title
/// and has the description two spaces behind the name, or in the widest column
/// where the name does not fit before it.
pub proof fn sections_are_laid_out(title: &str, rows: &[Row], column: usize, start: String)
    requires
        rows@.len() <= 1,
        rows@.len() == 1 ==> column == if 6 + width(rows@[0].name@) <= 25 {
            6 + width(rows@[0].name@)
        } else {
            25
        },
    ensures
        forall|out: &mut String|
            *out == start && rows@.len() == 0 && #[trigger] call_ensures(
                help::render_section,
                (out, title, rows),
                (),
            ) ==> final(out)@ == start@,
        forall|out: &mut String, other: &mut String|
            *out == start && rows@.len() == 1 && (*other)@ == start@ + (seq!['\n'] + title@
                + seq!['\n']) && #[trigger] call_ensures(
                help::render_section,
                (out, title, rows),
                (),
            ) && #[trigger] call_ensures(help::render_row, (other, &rows@[0], column), ())
                ==> final(out)@ == final(other)@,
{
    reveal_strlit("\n");
    assert("\n"@ =~= seq!['\n']);
    let texts = help::row_texts(rows@);
    assert(texts.len() == rows@.len());
    if rows@.len() == 1 {
        assert(texts[0] == (rows@[0].name@, rows@[0].desc@));
        assert(texts.drop_last() =~= Seq::<(Seq<char>, Seq<char>)>::empty());
        assert(help::widest_fitting(texts.drop_last()) is None);
        assert(help::desc_column(texts) == column);
        assert(help::rows_text(texts.drop_last(), column as nat) =~= Seq::<char>::empty());
        let one = help::row_text(texts[0], column as nat);
        assert(help::rows_text(texts, column as nat) =~= one);
        assert(start@ + help::section_text(title@, texts) =~= start@ + (seq!['\n'] + title@
            + seq!['\n']) + one);
    } else {
        assert(start@ + Seq::<char>::empty() =~= start@);
    }
}

/// A row that is no wider than another that fits goes to the end of the section,
/// its description in the same column as those before.
pub proof fn further_rows_are_laid_out(
    title: &str,
    rows: &[Row],
    more: &[Row],
    row: Row,
    i: int,
    start: String,
)
    requires
        more@ == rows@.push(row),
        0 <= i < rows@.len(),
        width(row.name@) <= width(rows@[i].name@),
        6 + width(rows@[i].name@) <= 25,
    ensures
        exists|column: usize| #[trigger]
            fits_in(row, column) && forall|
                out: &mut String,
                other: &mut String,
                last: &mut String,
            |
                *out == start && *other == start && *last == *final(out)
                    && #[trigger] call_ensures(help::render_section, (out, title, rows), ())
                    && #[trigger] call_ensures(help::render_section, (other, title, more), ())
                    && #[trigger] call_ensures(help::render_row, (last, &row, column), ())
                    ==> final(other)@ == final(last)@,
{
    let texts = help::row_texts(rows@);
    let longer = help::row_texts(more@);
    assert(longer =~= texts.push((row.name@, row.desc@)));
    assert(longer.drop_last() =~= texts);
    assert(texts[i] == (rows@[i].name@, rows@[i].desc@));
    help::fitting_names_stay_inline(texts, i);
    assert(help::widest_fitting(longer) == help::widest_fitting(texts)) by {
        if help::widest_fitting(texts) is None {
            help::fitting_names_stay_inline(texts, i);
            a_fitting_row_counts(texts, i);
        } else {
            a_fitting_row_counts(texts, i);
        }
    }
    let column = help::desc_column(texts) as usize;
    assert(fits_in(row, column));
    let one = help::row_text((row.name@, row.desc@), column as nat);
    assert(help::rows_text(longer, column as nat) =~= help::rows_text(texts, column as nat) + one);
    assert(start@ + help::section_text(title@, longer) =~= start@ + help::section_text(
        title@,
        texts,
    ) + one);
}

/// The row's name ends at least two spaces before the column, which is not past
/// the widest.
pub open spec fn fits_in(row: Row, column: usize) -> bool {
    6 + width(row.name@) <= column <= 25
}

proof fn a_fitting_row_counts(rows: Seq<(Seq<char>, Seq<char>)>, i: int)
    requires
        0 <= i < rows.len(),
        6 + width(rows[i].0) <= 25,
    ensures
        help::widest_fitting(rows) matches Some(w) && w >= 6 + width(rows[i].0),
    decreases rows.len(),
{
    if i < rows.len() - 1 {
        assert(rows.drop_last()[i] == rows[i]);
        a_fitting_row_counts(rows.drop_last(), i);
    }
}

} // verus!

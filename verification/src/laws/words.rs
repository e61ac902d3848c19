//! Laws of texts, numbers and paths.

use vstd::prelude::*;

use crate::path;
use crate::text;

verus! {

/// A character that Unicode counts as white space, by its code point.
pub open spec fn is_white(c: char) -> bool {
    let p = c as u32;
    9 <= p <= 13 || p == 32 || p == 133 || p == 160 || p == 5760 || 8192 <= p <= 8202 || p == 8232
        || p == 8233 || p == 8239 || p == 8287 || p == 12288
}

/// Small letters: as many characters, a capital from `A` to `Z` moved up by 32
/// code points, everything else as it was.
pub proof fn small_letters(s: &str, r: String)
    requires
        call_ensures(text::lowercase, (s,), r),
    ensures
        r@.len() == s@.len(),
        forall|i: int|
            0 <= i < s@.len() ==> {
                let p = s@[i] as u32;
                #[trigger] r@[i] as u32 == if 65 <= p <= 90 {
                    p + 32
                } else {
                    p as int
                }
            },
{
    assert forall|i: int| 0 <= i < s@.len() implies {
        let p = s@[i] as u32;
        #[trigger] r@[i] as u32 == if 65 <= p <= 90 {
            p + 32
        } else {
            p as int
        }
    } by {
        let c = s@[i];
        assert(r@[i] == text::lower_char(c));
    }
}

/// Trimming takes white space off both ends, all of it and nothing else.
pub proof fn trimming(s: &str, r: &str)
    requires
        call_ensures(text::trim, (s,), r),
    ensures
        exists|from: int, to: int|
            0 <= from <= to <= s@.len() && r@ == #[trigger] s@.subrange(from, to) && (forall|i: int|
                0 <= i < from || to <= i < s@.len() ==> is_white(#[trigger] s@[i])),
        r@.len() > 0 ==> !is_white(r@[0]) && !is_white(r@.last()),
{
    let a = leading(s@);
    let m = text::without_leading_space(s@);
    let b = trailing(m);
    assert(r@ =~= s@.subrange(a, a + b));
    assert forall|i: int| 0 <= i < a || a + b <= i < s@.len() implies is_white(
        #[trigger] s@[i],
    ) by {
        if i >= a + b {
            assert(m[i - a] == s@[i]);
        }
    }
    if r@.len() > 0 {
        assert(m[0] == r@[0]);
        assert(b > 0);
    }
}

proof fn space_is_white(c: char)
    ensures
        text::is_space(c) == is_white(c),
{
}

/// How much leading white space there is.
proof fn leading(s: Seq<char>) -> (n: int)
    ensures
        0 <= n <= s.len(),
        text::without_leading_space(s) == s.skip(n),
        forall|i: int| 0 <= i < n ==> is_white(#[trigger] s[i]),
        n < s.len() ==> !is_white(s[n]),
    decreases s.len(),
{
    if s.len() > 0 {
        space_is_white(s[0]);
    }
    if s.len() > 0 && text::is_space(s[0]) {
        let n = leading(s.skip(1));
        assert(s.skip(1).skip(n) =~= s.skip(n + 1));
        if n + 1 < s.len() {
            assert(s.skip(1)[n] == s[n + 1]);
        }
        assert forall|i: int| 0 <= i < n + 1 implies is_white(#[trigger] s[i]) by {
            if i > 0 {
                assert(s.skip(1)[i - 1] == s[i]);
            }
        }
        n + 1
    } else {
        assert(s.skip(0) =~= s);
        0
    }
}

/// How much is left without the trailing white space.
proof fn trailing(s: Seq<char>) -> (n: int)
    ensures
        0 <= n <= s.len(),
        text::without_trailing_space(s) == s.take(n),
        forall|i: int| n <= i < s.len() ==> is_white(#[trigger] s[i]),
        n > 0 ==> !is_white(s[n - 1]),
    decreases s.len(),
{
    if s.len() > 0 {
        space_is_white(s.last());
    }
    if s.len() > 0 && text::is_space(s.last()) {
        let n = trailing(s.drop_last());
        assert(s.drop_last().take(n) =~= s.take(n));
        if n > 0 {
            assert(s.drop_last()[n - 1] == s[n - 1]);
        }
        assert forall|i: int| n <= i < s.len() implies is_white(#[trigger] s[i]) by {
            if i < s.len() - 1 {
                assert(s.drop_last()[i] == s[i]);
            }
        }
        n
    } else {
        assert(s.take(s.len() as int) =~= s);
        s.len() as int
    }
}

/// A decimal digit, by its code point.
pub open spec fn is_decimal(c: char) -> bool {
    48 <= c as u32 <= 57
}

proof fn digit_is_decimal(c: char)
    ensures
        text::is_digit(c) == is_decimal(c),
        text::is_digit(c) ==> c as nat - '0' as nat == c as u32 - 48,
{
}

/// Only a text of one or more decimal digits is a number, and every such text is
/// one, up to the largest; one more digit makes ten times the number and the
/// digit.
pub proof fn reading_numbers(s: &str, t: &str, r: Option<u64>, more: Option<u64>)
    requires
        call_ensures(text::parse_digits, (s,), r),
        call_ensures(text::parse_digits, (t,), more),
        t@.len() > 0,
        s@ == t@.drop_last(),
    ensures
        s@.len() == 0 ==> r is None,
        !is_decimal(t@.last()) ==> more is None,
        s@.len() > 0 && r is None ==> more is None,
        s@.len() == 0 && is_decimal(t@.last()) ==> more == Some((t@.last() as u32 - 48) as u64),
        is_decimal(t@.last()) ==> (r matches Some(n) ==> {
            let next = 10 * n + (t@.last() as u32 - 48);
            more == if next <= u64::MAX {
                Some(next as u64)
            } else {
                None
            }
        }),
{
    let c = t@.last();
    digit_is_decimal(c);
    assert(t@[t@.len() - 1] == c);
    if s@.len() > 0 {
        if text::is_digits(t@) {
            assert forall|i: int| 0 <= i < s@.len() implies text::is_digit(#[trigger] s@[i]) by {
                assert(t@[i] == s@[i]);
            }
            if r is None {
                assert(text::digits_value(s@) > u64::MAX);
            }
        } else if is_decimal(c) && text::is_digits(s@) {
            assert forall|i: int| 0 <= i < t@.len() implies text::is_digit(#[trigger] t@[i]) by {
                if i < s@.len() {
                    assert(t@[i] == s@[i]);
                }
            }
        }
    } else {
        assert(text::digits_value(s@) == 0);
        assert(text::digits_value(t@) == text::digits_value(s@) * 10 + (c as nat
            - '0' as nat) as nat);
    }
}

/// A number is written so that it is read back as itself, and without zeros in
/// front.
pub proof fn writing_numbers(n: u64, t: String, s: &str, r: Option<u64>)
    requires
        call_ensures(text::number_text, (n,), t),
        s@ == t@,
        call_ensures(text::parse_digits, (s,), r),
    ensures
        r == Some(n),
        t@.len() > 1 ==> t@[0] != '0',
{
    text::decimal_reads_back(n as nat);
    no_zero_leads(n as nat);
}

proof fn no_zero_leads(n: nat)
    ensures
        text::decimal(n).len() > 0,
        n > 0 ==> text::decimal(n)[0] != '0',
        n < 10 ==> text::decimal(n).len() == 1,
    decreases n,
{
    if n >= 10 {
        no_zero_leads(n / 10);
    }
}

/// Joining puts the separator between neighbours: one more text at the end adds
/// the separator and the text.
pub proof fn joining(parts: &[String], more: &[String], sep: &str, r: String, longer: String)
    requires
        call_ensures(text::join, (parts, sep), r),
        call_ensures(text::join, (more, sep), longer),
        more@.len() > 0,
        parts@ == more@.drop_last(),
    ensures
        parts@.len() == 0 ==> r@.len() == 0 && longer@ == more@[0]@,
        parts@.len() > 0 ==> longer@ == r@ + sep@ + more@.last()@,
{
    assert(parts.deep_view() =~= more.deep_view().drop_last());
    assert(more.deep_view().last() == more@.last()@);
}

/// Splitting takes a text apart at every separator: no piece holds one, and
/// joined with it the pieces are the text again.
pub proof fn splitting(s: &str, c: char, r: Vec<String>, parts: &[String], sep: &str, back: String)
    requires
        call_ensures(text::split, (s, c), r),
        parts@ == r@,
        sep@ == seq![c],
        call_ensures(text::join, (parts, sep), back),
    ensures
        r@.len() > 0,
        forall|i: int| 0 <= i < r@.len() ==> !(#[trigger] r@[i])@.contains(c),
        back@ == s@,
{
    pieces_join_back(s@, c);
    assert(parts.deep_view() =~= r.deep_view());
    assert forall|i: int| 0 <= i < r@.len() implies !(#[trigger] r@[i])@.contains(c) by {
        assert(r.deep_view()[i] == r@[i]@);
    }
}

proof fn pieces_join_back(s: Seq<char>, c: char)
    ensures
        text::pieces(s, c).len() > 0,
        forall|i: int|
            0 <= i < text::pieces(s, c).len() ==> !(#[trigger] text::pieces(s, c)[i]).contains(c),
        text::joined(text::pieces(s, c), seq![c]) == s,
    decreases s.len(),
{
    let all = text::pieces(s, c);
    if s.len() > 0 {
        let before = text::pieces(s.drop_last(), c);
        pieces_join_back(s.drop_last(), c);
        assert(s =~= s.drop_last().push(s.last()));
        if s.last() == c {
            assert(all.drop_last() =~= before);
            assert(text::joined(all, seq![c]) =~= s);
        } else {
            let last = before.last().push(s.last());
            assert(all.drop_last() =~= before.drop_last());
            assert(all.last() == last);
            assert(!last.contains(c)) by {
                assert(!before[before.len() - 1].contains(c));
                if last.contains(c) {
                    let j = choose|j: int| 0 <= j < last.len() && last[j] == c;
                    assert(before.last()[j] == c);
                }
            }
            if all.len() > 1 {
                assert(text::joined(all, seq![c]) =~= s);
            } else {
                assert(before.drop_last() =~= Seq::<Seq<char>>::empty());
                assert(text::joined(before, seq![c]) == before[0]);
                assert(all[0] =~= s);
            }
        }
    } else {
        assert(all[0] =~= s);
    }
}

/// One text stands before another where it is what the other begins with, or
/// where at the first difference it has the lower code point.
pub proof fn order_of_texts(a: &str, b: &str, r: bool)
    requires
        call_ensures(text::stands_before, (a, b), r),
    ensures
        r <==> exists|i: int|
            0 <= i <= a@.len() && i < b@.len() && #[trigger] a@.take(i) == b@.take(i) && (i
                == a@.len() || a@[i] < b@[i]),
{
    if r {
        first_difference(a@, b@);
    } else {
        assert forall|i: int|
            0 <= i <= a@.len() && i < b@.len() && #[trigger] a@.take(i) == b@.take(i) implies !(i
            == a@.len() || a@[i] < b@[i]) by {
            if i == a@.len() || a@[i] < b@[i] {
                difference_decides(a@, b@, i);
            }
        }
    }
}

proof fn first_difference(a: Seq<char>, b: Seq<char>)
    requires
        text::text_lt(a, b),
    ensures
        exists|i: int|
            0 <= i <= a.len() && i < b.len() && #[trigger] a.take(i) == b.take(i) && (i == a.len()
                || a[i] < b[i]),
    decreases a.len(),
{
    if a.len() == 0 {
        assert(a.take(0) =~= b.take(0));
    } else if a[0] == b[0] {
        first_difference(a.skip(1), b.skip(1));
        let (x, y) = (a.skip(1), b.skip(1));
        let i = choose|i: int|
            0 <= i <= x.len() && i < y.len() && #[trigger] x.take(i) == y.take(i) && (i == x.len()
                || x[i] < y[i]);
        assert(a.take(i + 1) =~= seq![a[0]] + x.take(i));
        assert(b.take(i + 1) =~= seq![b[0]] + y.take(i));
    } else {
        assert(a.take(0) =~= b.take(0));
    }
}

proof fn difference_decides(a: Seq<char>, b: Seq<char>, i: int)
    requires
        0 <= i <= a.len(),
        i < b.len(),
        a.take(i) == b.take(i),
        i == a.len() || a[i] < b[i],
    ensures
        text::text_lt(a, b),
    decreases i,
{
    if i > 0 {
        assert(a.take(i)[0] == a[0] && b.take(i)[0] == b[0]);
        assert(a.skip(1).take(i - 1) =~= a.take(i).skip(1));
        assert(b.skip(1).take(i - 1) =~= b.take(i).skip(1));
        difference_decides(a.skip(1), b.skip(1), i - 1);
    }
}

/// A name that is no step of a path: it holds no `/` and is neither empty nor
/// `.` nor `..`.
pub open spec fn is_plain_name(name: Seq<char>) -> bool {
    name.len() > 0 && !name.contains('/') && name != "."@ && name != ".."@
}

proof fn piece_alone(s: Seq<char>, c: char)
    requires
        !s.contains(c),
    ensures
        text::pieces(s, c) == seq![s],
    decreases s.len(),
{
    if s.len() > 0 {
        assert(s.last() == s[s.len() - 1]);
        assert(s.last() != c);
        assert forall|i: int| 0 <= i < s.drop_last().len() implies s.drop_last()[i] != c by {
            assert(s[i] != c);
        }
        piece_alone(s.drop_last(), c);
        assert(s =~= s.drop_last().push(s.last()));
        assert(text::pieces(s, c) =~= seq![s]);
    } else {
        assert(s =~= Seq::<char>::empty());
    }
}

proof fn pieces_behind(a: Seq<char>, c: char, b: Seq<char>)
    ensures
        text::pieces(a + seq![c] + b, c) == text::pieces(a, c) + text::pieces(b, c),
        text::pieces(a, c).len() > 0,
    decreases b.len(),
{
    let all = a + seq![c] + b;
    pieces_join_back(a, c);
    if b.len() == 0 {
        assert(all.drop_last() =~= a);
        assert(text::pieces(all, c) =~= text::pieces(a, c) + text::pieces(b, c));
    } else {
        pieces_behind(a, c, b.drop_last());
        pieces_join_back(b.drop_last(), c);
        assert(all.drop_last() =~= a + seq![c] + b.drop_last());
        assert(all.last() == b.last());
        assert(text::pieces(all, c) =~= text::pieces(a, c) + text::pieces(b, c));
    }
}

/// One more step on a path that has some already.
proof fn parts_behind(dir: Seq<char>, name: Seq<char>)
    requires
        !name.contains('/'),
        dir.len() > 0,
    ensures
        path::parts(dir + seq!['/'] + name) == if path::names_something(name) {
            path::parts(dir).push(path::part_of(name))
        } else {
            path::parts(dir)
        },
{
    let all = dir + seq!['/'] + name;
    pieces_behind(dir, '/', name);
    piece_alone(name, '/');
    let before = text::pieces(dir, '/');
    let segments = text::pieces(all, '/');
    assert(segments =~= before.push(name));
    assert(segments.drop_last() =~= before);
    assert(all[0] == dir[0]);
    assert(segments[0] == before[0]);
    assert(path::parts(all) =~= if path::names_something(name) {
        path::parts(dir).push(path::part_of(name))
    } else {
        path::parts(dir)
    });
}

proof fn one_segment(segment: Seq<char>)
    ensures
        path::parts_of_segments(seq![segment]) == if path::names_something(segment) {
            seq![path::part_of(segment)]
        } else {
            Seq::empty()
        },
{
    let one = seq![segment];
    assert(one.drop_last() =~= Seq::<Seq<char>>::empty());
    assert(path::parts_of_segments(one.drop_last()) =~= Seq::empty());
    assert(one.last() == segment);
    assert(path::parts_of_segments(one) =~= if path::names_something(segment) {
        seq![path::part_of(segment)]
    } else {
        Seq::empty()
    });
}

proof fn parts_alone(name: Seq<char>)
    requires
        !name.contains('/'),
    ensures
        path::names_something(name) ==> path::parts(name) == seq![path::part_of(name)],
        !path::names_something(name) && name.len() == 0 ==> path::parts(name).len() == 0,
        name == "."@ ==> path::parts(name) == seq![path::PartName::Current],
{
    piece_alone(name, '/');
    let segments = text::pieces(name, '/');
    one_segment(name);
    reveal_strlit(".");
    if name.len() > 0 {
        assert(name[0] != '/');
    }
    if path::names_something(name) {
        assert(path::parts(name) =~= seq![path::part_of(name)]);
    }
    if name == "."@ {
        assert(path::parts(name) =~= seq![path::PartName::Current]);
    }
}

proof fn parts_of_root_child(name: Seq<char>)
    requires
        !name.contains('/'),
    ensures
        path::parts(seq!['/'] + name) == if path::names_something(name) {
            seq![path::PartName::Root, path::part_of(name)]
        } else {
            seq![path::PartName::Root]
        },
{
    let none = Seq::<char>::empty();
    let all = seq!['/'] + name;
    assert(none + seq!['/'] + name =~= all);
    pieces_behind(none, '/', name);
    piece_alone(name, '/');
    piece_alone(none, '/');
    let segments = text::pieces(all, '/');
    assert(segments =~= seq![none, name]);
    assert(segments.drop_last() =~= seq![none]);
    one_segment(none);
    assert(path::parts(all) =~= if path::names_something(name) {
        seq![path::PartName::Root, path::part_of(name)]
    } else {
        seq![path::PartName::Root]
    });
}

/// The base name of a path is what stands behind its last `/`, where that is a
/// plain name; `..` at the end gives none.
pub proof fn base_names(dir: Seq<char>, name: Seq<char>, p: &str, r: Option<String>)
    requires
        !name.contains('/'),
        p@ == name || p@ == dir + seq!['/'] + name,
        call_ensures(path::file_name, (p,), r),
    ensures
        is_plain_name(name) ==> r.deep_view() == Some(name),
        name == ".."@ ==> r is None,
        p@ == name && (name.len() == 0 || name == "."@) ==> r is None,
{
    reveal_strlit(".");
    reveal_strlit("..");
    if p@ == name {
        parts_alone(name);
    } else if dir.len() > 0 {
        parts_behind(dir, name);
    } else {
        assert(p@ =~= seq!['/'] + name);
        parts_of_root_child(name);
    }
}

/// A `/` or a `/.` at the end of a path changes nothing about its base name.
pub proof fn base_names_pass_over_the_end(
    dir: Seq<char>,
    end: Seq<char>,
    p: &str,
    q: &str,
    r: Option<String>,
    s: Option<String>,
)
    requires
        end.len() == 0 || end == "."@,
        p@ == dir,
        q@ == dir + seq!['/'] + end,
        call_ensures(path::file_name, (p,), r),
        call_ensures(path::file_name, (q,), s),
    ensures
        r.deep_view() == s.deep_view(),
{
    reveal_strlit(".");
    if dir.len() > 0 {
        parts_behind(dir, end);
    } else {
        parts_alone(dir);
        assert(q@ =~= seq!['/'] + end);
        parts_of_root_child(end);
    }
}

/// Two paths are the same where they end in the same name in the same
/// directory, and only there.
pub proof fn same_paths(
    dir: &str,
    name: Seq<char>,
    other_dir: &str,
    other_name: Seq<char>,
    a: &str,
    b: &str,
    same: bool,
    same_dir: bool,
)
    requires
        is_plain_name(name),
        is_plain_name(other_name),
        dir@.len() > 0,
        other_dir@.len() > 0,
        a@ == dir@ + seq!['/'] + name,
        b@ == other_dir@ + seq!['/'] + other_name,
        call_ensures(path::same_path, (a, b), same),
        call_ensures(path::same_path, (dir, other_dir), same_dir),
    ensures
        same <==> same_dir && name == other_name,
{
    parts_behind(dir@, name);
    parts_behind(other_dir@, other_name);
    let (x, y) = (path::parts(dir@), path::parts(other_dir@));
    let (n, m) = (path::part_of(name), path::part_of(other_name));
    if same {
        assert(x.push(n).drop_last() =~= x);
        assert(y.push(m).drop_last() =~= y);
        assert(x.push(n).last() == n && y.push(m).last() == m);
    }
}

/// Repeated separators and inner `.` steps make no difference between paths.
pub proof fn paths_pass_over_nothing(dir: &str, end: Seq<char>, q: &str, same: bool)
    requires
        end.len() == 0 || end == "."@,
        dir@.len() > 0,
        q@ == dir@ + seq!['/'] + end,
        call_ensures(path::same_path, (dir, q), same),
    ensures
        same,
{
    reveal_strlit(".");
    parts_behind(dir@, end);
}

/// A name in a directory is the directory, one `/` and the name; an absolute
/// name stands for itself.
pub proof fn names_in_directories(dir: &str, name: &str, r: String)
    requires
        call_ensures(path::join_path, (dir, name), r),
    ensures
        (name@.len() > 0 && name@[0] == '/') || dir@.len() == 0 ==> r@ == name@,
        !(name@.len() > 0 && name@[0] == '/') && dir@.len() > 0 ==> {
            &&& dir@.is_prefix_of(r@)
            &&& r@.len() > dir@.len() || dir@.last() == '/'
            &&& r@ == dir@ + name@ <==> dir@.last() == '/'
            &&& dir@.last() != '/' ==> r@ == dir@ + seq!['/'] + name@
        },
{
    reveal_strlit("/");
    assert("/"@ =~= seq!['/']);
    if dir@.len() > 0 && dir@.last() != '/' {
        assert((dir@ + seq!['/'] + name@).len() != (dir@ + name@).len());
    }
}

/// A text occurs in another exactly where the other is made of it and of what
/// stands around it.
pub proof fn texts_in_texts(hay: &str, needle: &str, r: bool)
    requires
        call_ensures(text::has_text, (hay, needle), r),
    ensures
        r <==> exists|a: Seq<char>, b: Seq<char>| hay@ == #[trigger] (a + needle@ + b),
{
    if r {
        let i = choose|i: int|
            0 <= i <= hay@.len() - needle@.len() && #[trigger] hay@.subrange(i, i + needle@.len())
                == needle@;
        assert(hay@ =~= hay@.take(i) + hay@.subrange(i, i + needle@.len()) + hay@.skip(
            i + needle@.len(),
        ));
    }
    if exists|a: Seq<char>, b: Seq<char>| hay@ == #[trigger] (a + needle@ + b) {
        let (a, b) = choose|a: Seq<char>, b: Seq<char>| hay@ == #[trigger] (a + needle@ + b);
        let i = a.len() as int;
        assert(hay@.subrange(i, i + needle@.len()) =~= needle@);
    }
}

} // verus!

//! Unix paths as the sequence of their components: what a path names does not
//! depend on repeated separators, a trailing separator or inner `.` segments.

use vstd::prelude::*;

use crate::text;

verus! {

/// One component of a path.
pub enum Part {
    Root,
    Current,
    Parent,
    Normal(String),
}

/// What a component names.
pub enum PartName {
    Root,
    Current,
    Parent,
    Normal(Seq<char>),
}

impl View for Part {
    type V = PartName;

    open spec fn view(&self) -> PartName {
        match self {
            Part::Root => PartName::Root,
            Part::Current => PartName::Current,
            Part::Parent => PartName::Parent,
            Part::Normal(name) => PartName::Normal(name@),
        }
    }
}

impl DeepView for Part {
    type V = PartName;

    open spec fn deep_view(&self) -> PartName {
        self@
    }
}

/// The component that a segment between separators stands for.
pub open spec fn part_of(segment: Seq<char>) -> PartName {
    if segment == ".."@ {
        PartName::Parent
    } else {
        PartName::Normal(segment)
    }
}

/// Whether a segment stands for a component: `//` and `/./` name nothing.
pub open spec fn names_something(segment: Seq<char>) -> bool {
    segment.len() > 0 && segment != "."@
}

/// The components that the segments stand for.
pub open spec fn parts_of_segments(segments: Seq<Seq<char>>) -> Seq<PartName>
    decreases segments.len(),
{
    if segments.len() == 0 {
        Seq::empty()
    } else if names_something(segments.last()) {
        parts_of_segments(segments.drop_last()).push(part_of(segments.last()))
    } else {
        parts_of_segments(segments.drop_last())
    }
}

/// The components of a path. A `.` counts only where the path starts with it.
pub open spec fn parts(path: Seq<char>) -> Seq<PartName> {
    let segments = text::pieces(path, '/');
    if path.len() > 0 && path[0] == '/' {
        seq![PartName::Root] + parts_of_segments(segments)
    } else if segments[0] == "."@ {
        seq![PartName::Current] + parts_of_segments(segments)
    } else {
        parts_of_segments(segments)
    }
}

/// The last component of a path, where that is a plain name.
pub open spec fn last_name(path: Seq<char>) -> Option<Seq<char>> {
    let all = parts(path);
    if all.len() > 0 && all.last() is Normal {
        Some(all.last()->Normal_0)
    } else {
        None
    }
}

/// The components of a path, in order.
pub fn path_parts(path: &str) -> (r: Vec<Part>)
    ensures
        r.deep_view() == parts(path@),
{
    let chars = text::chars_of(path);
    let segments = text::split(path, '/');
    let ghost names = segments.deep_view();
    let mut out: Vec<Part> = Vec::new();
    if chars.len() > 0 && chars[0] == '/' {
        out.push(Part::Root);
    } else if text::same_text(segments[0].as_str(), ".") {
        out.push(Part::Current);
    }
    let ghost lead = out.deep_view();
    proof {
        assert(names[0] == segments@[0]@);
        assert(names.take(0) =~= Seq::<Seq<char>>::empty());
        assert(lead + Seq::<PartName>::empty() =~= lead);
        assert(lead =~= if path@.len() > 0 && path@[0] == '/' {
            seq![PartName::Root]
        } else if names[0] == "."@ {
            seq![PartName::Current]
        } else {
            Seq::empty()
        });
    }
    let mut i: usize = 0;
    while i < segments.len()
        invariant
            i <= segments.len(),
            names == segments.deep_view(),
            out.deep_view() == lead + parts_of_segments(names.take(i as int)),
        decreases segments.len() - i,
    {
        let ghost before = out.deep_view();
        let segment = segments[i].as_str();
        proof {
            assert(names.take(i + 1).drop_last() =~= names.take(i as int));
            assert(names.take(i + 1).last() == segment@);
        }
        if !segment.is_empty() && !text::same_text(segment, ".") {
            if text::same_text(segment, "..") {
                out.push(Part::Parent);
            } else {
                out.push(Part::Normal(segments[i].clone()));
            }
            assert(out.deep_view() =~= before.push(part_of(segment@)));
            assert(out.deep_view() =~= lead + parts_of_segments(names.take(i + 1)));
        }
        i += 1;
    }
    proof {
        assert(names.take(i as int) =~= names);
        assert(out.deep_view() =~= parts(path@));
    }
    out
}

/// The final component of `path`, or `None` where the path ends in `..`, in the
/// root or names nothing.
pub fn file_name(path: &str) -> (r: Option<String>)
    ensures
        r.deep_view() == last_name(path@),
{
    let all = path_parts(path);
    let n: usize = all.len();
    if n == 0 {
        return None;
    }
    assert(all.deep_view().last() == all@[n - 1]@);
    match &all[n - 1] {
        Part::Normal(name) => Some(name.clone()),
        _ => None,
    }
}

fn same_part(a: &Part, b: &Part) -> (r: bool)
    ensures
        r == (a@ == b@),
{
    match (a, b) {
        (Part::Root, Part::Root) => true,
        (Part::Current, Part::Current) => true,
        (Part::Parent, Part::Parent) => true,
        (Part::Normal(x), Part::Normal(y)) => text::same_text(x.as_str(), y.as_str()),
        _ => false,
    }
}

/// Whether two paths have the same components.
pub fn same_path(a: &str, b: &str) -> (r: bool)
    ensures
        r == (parts(a@) == parts(b@)),
{
    let pa = path_parts(a);
    let pb = path_parts(b);
    if pa.len() != pb.len() {
        assert(pa.deep_view().len() != pb.deep_view().len());
        return false;
    }
    let mut i: usize = 0;
    while i < pa.len()
        invariant
            i <= pa.len(),
            pa.len() == pb.len(),
            pa.deep_view() == parts(a@),
            pb.deep_view() == parts(b@),
            forall|j: int| 0 <= j < i ==> pa.deep_view()[j] == pb.deep_view()[j],
        decreases pa.len() - i,
    {
        if !same_part(&pa[i], &pb[i]) {
            assert(pa.deep_view()[i as int] != pb.deep_view()[i as int]);
            return false;
        }
        i += 1;
    }
    assert(pa.deep_view() =~= pb.deep_view());
    true
}

/// The path of `name` in the directory `dir`. An absolute name stands for
/// itself, and a directory without a name is the current one.
pub open spec fn joined_path(dir: Seq<char>, name: Seq<char>) -> Seq<char> {
    if dir.len() == 0 || (name.len() > 0 && name[0] == '/') {
        name
    } else if dir.last() == '/' {
        dir + name
    } else {
        dir + "/"@ + name
    }
}

/// The path of `name` in the directory `dir`.
pub fn join_path(dir: &str, name: &str) -> (r: String)
    ensures
        r@ == joined_path(dir@, name@),
{
    let d = text::chars_of(dir);
    let n = text::chars_of(name);
    if d.len() == 0 || (n.len() > 0 && n[0] == '/') {
        name.to_owned()
    } else if d[d.len() - 1] == '/' {
        dir.to_owned().concat(name)
    } else {
        dir.to_owned().concat("/").concat(name)
    }
}

} // verus!

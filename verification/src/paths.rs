//! The file name that the canvas shows for a media, image or mask path.
use crate::search::chars_of;
use vstd::prelude::*;

verus! {

broadcast use vstd::string::group_string_axioms;

/// A path separator: `/` or `\`.
pub open spec fn is_separator(c: char) -> bool {
    c == '/' || c == '\\'
}

/// The characters of `p` after its last separator (all of `p` when it has none).
pub open spec fn file_name_of(p: Seq<char>) -> Seq<char>
    decreases p.len(),
{
    if p.len() == 0 {
        p
    } else if is_separator(p.last()) {
        Seq::empty()
    } else {
        file_name_of(p.drop_last()).push(p.last())
    }
}

/// The file name of `path`: what follows its last `/` or `\`.
pub fn path_file_name(path: &str) -> (r: String)
    ensures
        r@ == file_name_of(path@),
{
    let cs = chars_of(path);
    let n = cs.len();
    // Walk back from the end to just after the last separator.
    let mut start: usize = n;
    assert(path@.take(n as int) =~= path@);
    assert(path@.subrange(n as int, n as int) =~= Seq::<char>::empty());
    assert(path@ + Seq::<char>::empty() =~= path@);
    while start > 0 && cs[start - 1] != '/' && cs[start - 1] != '\\'
        invariant
            cs@ == path@,
            n == cs@.len(),
            start <= n,
            file_name_of(path@) == file_name_of(path@.take(start as int)) + path@.subrange(
                start as int,
                n as int,
            ),
        decreases start,
    {
        proof {
            let t = path@.take(start as int);
            assert(t.drop_last() =~= path@.take(start - 1));
            assert(t.last() == path@[start - 1]);
            assert(path@.subrange(start - 1, n as int) =~= seq![path@[start - 1]]
                + path@.subrange(start as int, n as int));
        }
        start = start - 1;
    }
    proof {
        if start > 0 {
            let t = path@.take(start as int);
            assert(t.last() == path@[start - 1]);
        } else {
            assert(path@.take(0) =~= Seq::<char>::empty());
        }
        assert(Seq::<char>::empty() + path@.subrange(start as int, n as int) =~= path@.subrange(
            start as int,
            n as int,
        ));
    }
    path.substring_char(start, n).to_string()
}

} // verus!

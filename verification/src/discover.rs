//! Selection and ordering of the source container files.
//!
//! Discovery receives the plain file names found in the input directory,
//! keeps those naming container files, and sorts them so that multi-file
//! checkpoints are processed in a reproducible order.  Finding no
//! container file at all is a fatal setup error.

use vstd::prelude::*;
use vstd::string::StrSliceExecFns;

use crate::error::ShardError;

verus! {

/// Lexicographic order on code points: `a` comes at or before `b`.
pub open spec fn str_le(a: Seq<char>, b: Seq<char>) -> bool
    decreases a.len(),
{
    ||| a.len() == 0
    ||| (b.len() > 0 && ((a[0] as int) < (b[0] as int) || (a[0] == b[0] && str_le(
        a.drop_first(),
        b.drop_first(),
    ))))
}

/// Any two names are ordered one way or the other.
pub proof fn lemma_str_le_total(a: Seq<char>, b: Seq<char>)
    ensures
        str_le(a, b) || str_le(b, a),
    decreases a.len(),
{
    if a.len() > 0 && b.len() > 0 && a[0] == b[0] {
        lemma_str_le_total(a.drop_first(), b.drop_first());
    }
}

/// The order is transitive.
pub proof fn lemma_str_le_trans(a: Seq<char>, b: Seq<char>, c: Seq<char>)
    requires
        str_le(a, b),
        str_le(b, c),
    ensures
        str_le(a, c),
    decreases a.len(),
{
    if a.len() > 0 {
        if a[0] == b[0] && b[0] == c[0] {
            lemma_str_le_trans(a.drop_first(), b.drop_first(), c.drop_first());
        }
    }
}

/// Whether `s` ends with `suffix`.
pub open spec fn spec_ends_with(s: Seq<char>, suffix: Seq<char>) -> bool {
    suffix.len() <= s.len() && s.subrange(s.len() - suffix.len(), s.len() as int) == suffix
}

/// Whether a file name names a container file: a non-empty stem followed
/// by the container extension.
pub open spec fn spec_is_container_name(s: Seq<char>) -> bool {
    s.len() > ".safetensors"@.len() && spec_ends_with(s, ".safetensors"@)
}

/// Whether `name` ends with `suffix`.
fn ends_with(name: &str, suffix: &str) -> (r: bool)
    ensures
        r == spec_ends_with(name@, suffix@),
{
    let n_len = name.unicode_len();
    let s_len = suffix.unicode_len();
    if s_len > n_len {
        return false;
    }
    let off = n_len - s_len;
    let mut i: usize = 0;
    while i < s_len
        invariant
            0 <= i <= s_len,
            s_len == suffix@.len(),
            s_len <= n_len == name@.len(),
            off == n_len - s_len,
            forall|j: int| 0 <= j < i ==> name@[off + j] == suffix@[j],
        decreases s_len - i,
    {
        if name.get_char(off + i) != suffix.get_char(i) {
            assert(name@.subrange(off as int, n_len as int)[i as int] != suffix@[i as int]);
            return false;
        }
        i += 1;
    }
    assert(name@.subrange(off as int, n_len as int) =~= suffix@);
    true
}

/// Whether a file name names a container file.
pub fn is_container_name(name: &str) -> (r: bool)
    ensures
        r == spec_is_container_name(name@),
{
    let ext = ".safetensors";
    name.unicode_len() > ext.unicode_len() && ends_with(name, ext)
}

/// Whether `a` comes at or before `b` in the discovery order.
fn str_le_exec(a: &str, b: &str) -> (r: bool)
    ensures
        r == str_le(a@, b@),
{
    let a_len = a.unicode_len();
    let b_len = b.unicode_len();
    let mut i: usize = 0;
    proof {
        assert(a@.skip(0) =~= a@);
        assert(b@.skip(0) =~= b@);
    }
    loop
        invariant
            0 <= i <= a_len,
            i <= b_len,
            a_len == a@.len(),
            b_len == b@.len(),
            str_le(a@, b@) == str_le(a@.skip(i as int), b@.skip(i as int)),
        decreases a_len - i,
    {
        if i == a_len {
            proof {
                assert(a@.skip(i as int).len() == 0);
            }
            return true;
        }
        if i == b_len {
            proof {
                assert(b@.skip(i as int).len() == 0 && a@.skip(i as int).len() > 0);
            }
            return false;
        }
        let ca = a.get_char(i);
        let cb = b.get_char(i);
        proof {
            assert(a@.skip(i as int)[0] == a@[i as int]);
            assert(b@.skip(i as int)[0] == b@[i as int]);
            assert(a@.skip(i as int).drop_first() =~= a@.skip(i + 1));
            assert(b@.skip(i as int).drop_first() =~= b@.skip(i + 1));
        }
        if (ca as u32) < (cb as u32) {
            return true;
        }
        if (ca as u32) > (cb as u32) {
            return false;
        }
        proof {
            assert(ca == cb);
        }
        i += 1;
    }
}

/// The views of a list of names.
pub open spec fn views_of(s: Seq<String>) -> Seq<Seq<char>> {
    s.map_values(|x: String| x@)
}

/// Whether a list of names is sorted in the discovery order.
pub open spec fn views_sorted(s: Seq<Seq<char>>) -> bool {
    forall|i: int, j: int| 0 <= i < j < s.len() ==> str_le(#[trigger] s[i], #[trigger] s[j])
}

/// The container-file names among a list of names.
pub open spec fn container_views(s: Seq<Seq<char>>) -> Seq<Seq<char>> {
    s.filter(|x: Seq<char>| spec_is_container_name(x))
}

/// Filtering one more name keeps it exactly when it names a container
/// file.
proof fn lemma_container_views_push(s: Seq<Seq<char>>, x: Seq<char>)
    ensures
        container_views(s.push(x)) == if spec_is_container_name(x) {
            container_views(s).push(x)
        } else {
            container_views(s)
        },
{
    reveal(Seq::filter);
    assert(s.push(x).drop_last() =~= s);
    assert(s.push(x).last() == x);
}

/// The position where a name belongs in a sorted list.
fn find_insert_pos(out: &Vec<String>, x: &String) -> (pos: usize)
    ensures
        0 <= pos <= out@.len(),
        forall|j: int| 0 <= j < pos ==> str_le(#[trigger] views_of(out@)[j], x@),
        pos < out@.len() ==> !str_le(views_of(out@)[pos as int], x@),
{
    let mut pos: usize = 0;
    while pos < out.len()
        invariant
            0 <= pos <= out@.len(),
            forall|j: int| 0 <= j < pos ==> str_le(#[trigger] views_of(out@)[j], x@),
        decreases out@.len() - pos,
    {
        if !str_le_exec(out[pos].as_str(), x.as_str()) {
            return pos;
        }
        pos += 1;
    }
    pos
}

/// Inserts a name into a sorted list, keeping it sorted.
fn insert_sorted(out: &mut Vec<String>, x: String)
    requires
        views_sorted(views_of(old(out)@)),
    ensures
        views_sorted(views_of(final(out)@)),
        views_of(final(out)@).to_multiset() == views_of(old(out)@).to_multiset().insert(x@),
{
    let ghost old_views = views_of(out@);
    let pos = find_insert_pos(out, &x);
    proof {
        // Everything at or after the insertion point is at or after `x`.
        if pos < out@.len() {
            lemma_str_le_total(views_of(out@)[pos as int], x@);
        }
        assert forall|j: int| pos <= j < out@.len() implies str_le(
            x@,
            #[trigger] views_of(out@)[j],
        ) by {
            lemma_str_le_total(views_of(out@)[pos as int], x@);
            if j > pos {
                lemma_str_le_trans(x@, views_of(out@)[pos as int], views_of(out@)[j]);
            }
        }
    }
    let ghost x_view = x@;
    out.insert(pos, x);
    proof {
        broadcast use vstd::seq_lib::group_to_multiset_ensures;

        let new_views = views_of(out@);
        assert(new_views =~= old_views.insert(pos as int, x_view));
        assert(new_views.remove(pos as int) =~= old_views);
        assert(new_views[pos as int] == x_view);
        assert(new_views.to_multiset().remove(x_view) =~= old_views.to_multiset());
        assert(new_views.to_multiset().contains(x_view)) by {
            assert(new_views.contains(x_view));
        }
        assert(new_views.to_multiset() =~= old_views.to_multiset().insert(x_view));
        assert forall|i: int, j: int| 0 <= i < j < new_views.len() implies str_le(
            #[trigger] new_views[i],
            #[trigger] new_views[j],
        ) by {
            if i < pos && j == pos {
            } else if i == pos && j > pos {
            } else if i < pos && j > pos {
                assert(str_le(new_views[i], x_view));
                assert(str_le(x_view, new_views[j]));
                lemma_str_le_trans(new_views[i], x_view, new_views[j]);
            }
        }
    }
}

/// Keeps the container-file names from a directory listing and sorts
/// them into the reproducible discovery order.  An empty result is the
/// fatal setup error of a run: there is nothing to shard.
pub fn discover_sources(names: Vec<String>) -> (r: Result<Vec<String>, ShardError>)
    ensures
        r matches Ok(v) ==> {
            &&& views_sorted(views_of(v@))
            &&& views_of(v@).to_multiset() == container_views(views_of(names@)).to_multiset()
            &&& v@.len() > 0
        },
        r is Err <==> container_views(views_of(names@)).len() == 0,
        r matches Err(e) ==> e is NoSourceFiles,
{
    let ghost all_views = views_of(names@);
    let mut sorted: Vec<String> = Vec::new();
    let mut count: usize = 0;
    let mut i: usize = 0;
    proof {
        assert(all_views.subrange(0, 0) =~= Seq::<Seq<char>>::empty());
        assert(container_views(Seq::<Seq<char>>::empty()) =~= Seq::<Seq<char>>::empty());
        assert(views_of(sorted@) =~= Seq::<Seq<char>>::empty());
    }
    while i < names.len()
        invariant
            0 <= i <= names@.len(),
            all_views == views_of(names@),
            views_sorted(views_of(sorted@)),
            views_of(sorted@).to_multiset() == container_views(
                all_views.subrange(0, i as int),
            ).to_multiset(),
            count == container_views(all_views.subrange(0, i as int)).len(),
        decreases names@.len() - i,
    {
        proof {
            broadcast use vstd::seq_lib::group_to_multiset_ensures;

            let prefix = all_views.subrange(0, i as int);
            let prefix1 = all_views.subrange(0, i + 1);
            assert(prefix1 =~= prefix.push(all_views[i as int]));
            lemma_container_views_push(prefix, all_views[i as int]);
        }
        let name = names[i].clone();
        assert(name@ == all_views[i as int]);
        if is_container_name(name.as_str()) {
            insert_sorted(&mut sorted, name);
            count += 1;
        }
        i += 1;
    }
    proof {
        assert(all_views.subrange(0, names@.len() as int) =~= all_views);
    }
    if count == 0 {
        return Err(ShardError::NoSourceFiles);
    }
    proof {
        broadcast use vstd::seq_lib::group_to_multiset_ensures;

        assert(views_of(sorted@).len() == views_of(sorted@).to_multiset().len());
    }
    Ok(sorted)
}

} // verus!

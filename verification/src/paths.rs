//! Paths as text, with slashes between their parts.

use crate::text::{chars_of, split_str, str_equal};
#[allow(unused_imports)]
use crate::text::{split_text, texts};
use vstd::prelude::*;

verus! {

/// The path begins at the root of the file system.
pub open spec fn is_absolute(path: Seq<char>) -> bool {
    path.len() > 0 && path[0] == '/'
}

/// Whether a path begins at the root of the file system.
pub fn absolute(path: &str) -> (r: bool)
    ensures
        r == is_absolute(path@),
{
    let chars = chars_of(path);
    chars.len() > 0 && chars[0] == '/'
}

/// The path that leads on from a base.
pub open spec fn joined(base: Seq<char>, path: Seq<char>) -> Seq<char> {
    if is_absolute(path) || base.len() == 0 {
        path
    } else if base.last() == '/' {
        base + path
    } else {
        base + "/"@ + path
    }
}

/// The path that leads on from a base.
pub fn join_path(base: &str, path: &str) -> (r: String)
    ensures
        r@ == joined(base@, path@),
{
    let chars = chars_of(base);
    if absolute(path) || chars.len() == 0 {
        path.to_owned()
    } else if chars[chars.len() - 1] == '/' {
        base.to_owned().concat(path)
    } else {
        base.to_owned().concat("/").concat(path)
    }
}

/// What a part of a path counts for in the order of paths: nothing if it is empty, or a
/// dot after the start; a dot at the start before a step upwards, and that before a name.
pub open spec fn part_key(part: Seq<char>, first: bool) -> Seq<char> {
    if part.len() == 0 || (part == "."@ && !first) {
        Seq::empty()
    } else if part == "."@ {
        "\0\u{2}"@
    } else if part == ".."@ {
        "\0\u{3}"@
    } else {
        "\0\u{4}"@ + part
    }
}

/// What the first `n` parts of a path count for.
pub open spec fn parts_key(parts: Seq<Seq<char>>, n: nat) -> Seq<char>
    decreases n,
{
    if n == 0 {
        Seq::empty()
    } else {
        parts_key(parts, (n - 1) as nat) + part_key(parts[n - 1], n == 1)
    }
}

/// The text by which a path is ordered part by part. Paths that differ in slashes and dots
/// alone have the same one.
pub open spec fn path_key(path: Seq<char>) -> Seq<char> {
    let parts = split_text(path, '/');
    (if is_absolute(path) {
        "\0\u{1}"@
    } else {
        Seq::empty()
    }) + parts_key(parts, parts.len())
}

/// The text by which a path is ordered part by part.
pub fn ordering_key(path: &str) -> (r: String)
    ensures
        r@ == path_key(path@),
{
    let parts = split_str(path, '/');
    let ghost all = texts(parts@);
    let mut key = if absolute(path) {
        "\0\u{1}".to_owned()
    } else {
        String::new()
    };
    let ghost start = key@;
    let mut i: usize = 0;
    assert(key@ =~= start + parts_key(all, 0));
    while i < parts.len()
        invariant
            i <= parts@.len() == all.len(),
            all == texts(parts@),
            key@ == start + parts_key(all, i as nat),
        decreases parts@.len() - i,
    {
        let part = parts[i].as_str();
        assert(all[i as int] == parts@[i as int]@);
        let ghost before = key@;
        if str_equal(part, ".") {
            if i == 0 {
                key.append("\0\u{2}");
            }
        } else if str_equal(part, "..") {
            key.append("\0\u{3}");
        } else if chars_of(part).len() > 0 {
            key.append("\0\u{4}");
            key.append(part);
        }
        proof {
            reveal_strlit(".");
            reveal_strlit("..");
            assert(key@ =~= before + part_key(all[i as int], i == 0));
            assert(key@ =~= start + (parts_key(all, i as nat) + part_key(all[i as int], i == 0)));
        }
        i += 1;
    }
    key
}

/// A path without a step upwards that does not begin at the root or with a dot.
pub open spec fn is_plain_relative(path: Seq<char>) -> bool {
    let parts = split_text(path, '/');
    &&& !is_absolute(path)
    &&& !parts.contains(".."@)
    &&& parts[0] != "."@
}

/// Whether a path is relative, with neither a step upwards nor a dot at its start.
pub fn plain_relative(path: &str) -> (r: bool)
    ensures
        r == is_plain_relative(path@),
{
    if absolute(path) {
        return false;
    }
    let parts = split_str(path, '/');
    proof {
        crate::text::lemma_split_nonempty(path@, '/');
        assert(texts(parts@).len() == parts@.len());
        assert(texts(parts@)[0] == parts@[0]@);
    }
    !crate::text::contains_text(&parts, "..") && !str_equal(parts[0].as_str(), ".")
}

/// How many of the parts of a path step upwards.
pub open spec fn ups(parts: Seq<Seq<char>>) -> nat
    decreases parts.len(),
{
    if parts.len() == 0 {
        0
    } else {
        ups(parts.drop_last()) + if parts.last() == ".."@ {
            1nat
        } else {
            0nat
        }
    }
}

/// How many of the parts of a path name something.
pub open spec fn downs(parts: Seq<Seq<char>>) -> nat
    decreases parts.len(),
{
    if parts.len() == 0 {
        0
    } else {
        downs(parts.drop_last()) + if names_something(parts.last()) {
            1nat
        } else {
            0nat
        }
    }
}

/// The part of a path is a name, not a dot, two dots or nothing.
pub open spec fn names_something(part: Seq<char>) -> bool {
    part.len() > 0 && part != "."@ && part != ".."@
}

/// Nowhere along the way has the path stepped upwards more often than downwards.
pub open spec fn stays_inside(parts: Seq<Seq<char>>) -> bool {
    forall|n: int| 0 <= n <= parts.len() ==> ups(#[trigger] parts.take(n)) <= downs(parts.take(n))
}

/// Why a symbolic link in a directory may not point at its target.
pub open spec fn symlink_fault(parent: Seq<char>, target: Seq<char>) -> Option<Seq<char>> {
    if is_absolute(target) {
        Some("absolute symlink target"@)
    } else if is_absolute(joined(parent, target)) {
        Some("unsupported symlink component"@)
    } else if !stays_inside(split_text(joined(parent, target), '/')) {
        Some("symlink escapes selected cache root"@)
    } else {
        None
    }
}

/// Accepts the target of a symbolic link in a directory, or says why not.
pub fn validate_symlink(parent: &str, target: &str) -> (r: Result<(), String>)
    ensures
        r is Ok <==> symlink_fault(parent@, target@) is None,
        r matches Err(reason) ==> symlink_fault(parent@, target@) == Some(reason@),
{
    if absolute(target) {
        return Err("absolute symlink target".to_owned());
    }
    let combined = join_path(parent, target);
    if absolute(combined.as_str()) {
        return Err("unsupported symlink component".to_owned());
    }
    let parts = split_str(combined.as_str(), '/');
    let ghost all = texts(parts@);
    let mut depth: usize = 0;
    let mut i: usize = 0;
    while i < parts.len()
        invariant
            i <= parts@.len(),
            depth <= i,
            all == texts(parts@),
            combined@ == joined(parent@, target@),
            !is_absolute(target@),
            !is_absolute(combined@),
            all == split_text(combined@, '/'),
            depth == downs(all.take(i as int)) - ups(all.take(i as int)),
            forall|n: int| 0 <= n <= i ==> ups(#[trigger] all.take(n)) <= downs(all.take(n)),
        decreases parts@.len() - i,
    {
        proof {
            assert(all[i as int] == parts@[i as int]@);
            assert(all.take(i + 1).drop_last() =~= all.take(i as int));
            assert(all.take(i + 1).last() == all[i as int]);
            reveal_strlit("..");
            reveal_strlit(".");
        }
        let part = parts[i].as_str();
        if str_equal(part, "..") {
            if depth == 0 {
                assert(!(ups(all.take(i + 1)) <= downs(all.take(i + 1))));
                return Err("symlink escapes selected cache root".to_owned());
            }
            depth -= 1;
        } else if !str_equal(part, ".") && chars_of(part).len() > 0 {
            depth += 1;
        }
        i += 1;
    }
    Ok(())
}

} // verus!

//! Paths of files, as texts.
use crate::order::{lemma_picked_next, lemma_picked_none, picked};
use crate::text::{ends_with, has_prefix, has_suffix, pieces, split, starts_with, str_eq, texts};
use vstd::prelude::*;
use vstd::string::*;

verus! {

/// The path of an entry in a directory. `name` is relative.
pub open spec fn joined_path(dir: Seq<char>, name: Seq<char>) -> Seq<char> {
    if dir.len() == 0 || has_suffix(dir, "/"@) {
        dir + name
    } else {
        dir + "/"@ + name
    }
}

/// The path of an entry in a directory. `name` is relative.
pub fn join_path(dir: &str, name: &str) -> (r: String)
    ensures
        r@ == joined_path(dir@, name@),
{
    let mut path: String = dir.to_owned();
    if !dir.is_empty() && !ends_with(dir, "/") {
        path.append("/");
    }
    path.append(name);
    path
}

/// Whether the piece at `k` of a path is one of its components: an empty piece is
/// none, and a `.` is one only where the path begins with it.
pub open spec fn is_component(all: Seq<Seq<char>>, k: int) -> bool {
    all[k].len() > 0 && (k == 0 || all[k] != "."@)
}

/// The components among the first `n` pieces of a path, in order.
pub open spec fn components_of(all: Seq<Seq<char>>, n: int) -> Seq<Seq<char>>
    decreases n,
{
    if n <= 0 {
        Seq::empty()
    } else if is_component(all, n - 1) {
        components_of(all, n - 1).push(all[n - 1])
    } else {
        components_of(all, n - 1)
    }
}

/// The components of a path after its root, in order.
pub open spec fn path_components(path: Seq<char>) -> Seq<Seq<char>> {
    components_of(pieces(path, '/'), pieces(path, '/').len() as int)
}

/// Whether two texts are one path: both begin at the root or neither does, and
/// their components are the same. Slashes that repeat or trail make no other
/// path. So `std::path::Path` compares paths on Unix.
pub open spec fn same_path(a: Seq<char>, b: Seq<char>) -> bool {
    has_prefix(a, "/"@) == has_prefix(b, "/"@) && path_components(a) == path_components(b)
}

/// The components of a path after its root, in order.
fn split_path(path: &str) -> (r: Vec<String>)
    ensures
        texts(r@) == path_components(path@),
{
    let parts = split(path, '/');
    let ghost all = texts(parts@);
    let mut out: Vec<String> = Vec::new();
    let mut i: usize = 0;
    proof {
        assert(texts(out@) =~= Seq::<Seq<char>>::empty());
    }
    while i < parts.len()
        invariant
            i <= parts@.len(),
            all == texts(parts@),
            texts(out@) == components_of(all, i as int),
        decreases parts.len() - i,
    {
        let part = parts[i].as_str();
        proof {
            assert(all[i as int] == part@);
        }
        if !part.is_empty() && (i == 0 || !str_eq(part, ".")) {
            let ghost before = texts(out@);
            out.push(parts[i].clone());
            proof {
                assert(texts(out@) =~= before.push(all[i as int]));
            }
        }
        i += 1;
    }
    out
}

/// Whether two texts are one path.
pub fn is_same_path(a: &str, b: &str) -> (r: bool)
    ensures
        r == same_path(a@, b@),
{
    if starts_with(a, "/") != starts_with(b, "/") {
        return false;
    }
    let left = split_path(a);
    let right = split_path(b);
    if left.len() != right.len() {
        proof {
            assert(texts(left@).len() != texts(right@).len());
        }
        return false;
    }
    let mut i: usize = 0;
    while i < left.len()
        invariant
            i <= left@.len(),
            left@.len() == right@.len(),
            texts(left@) == path_components(a@),
            texts(right@) == path_components(b@),
            forall|k: int| 0 <= k < i ==> (#[trigger] left@[k])@ == right@[k]@,
        decreases left.len() - i,
    {
        if !str_eq(left[i].as_str(), right[i].as_str()) {
            proof {
                assert(texts(left@)[i as int] != texts(right@)[i as int]);
            }
            return false;
        }
        i += 1;
    }
    proof {
        assert(texts(left@) =~= texts(right@));
    }
    true
}

/// What `std::path::Path::parent` says of a path: the path without its last
/// component, where it has one to lose.
pub uninterp spec fn parent_path(path: Seq<char>) -> Option<Seq<char>>;

/// `std::path::Path::parent`: a function of the path's text alone.
#[verifier::external_body]
pub(crate) fn parent(path: &str) -> (r: Option<String>)
    ensures
        match r {
            Some(dir) => parent_path(path@) == Some(dir@),
            None => parent_path(path@) is None,
        },
{
    std::path::Path::new(path).parent().map(|dir| dir.to_string_lossy().into_owned())
}

/// What `std::path::Path::file_name` says of a path: its last component, where
/// that is a name.
pub uninterp spec fn last_name(path: Seq<char>) -> Option<Seq<char>>;

/// `std::path::Path::file_name`: a function of the path's text alone.
#[verifier::external_body]
pub(crate) fn file_name(path: &str) -> (r: Option<String>)
    ensures
        match r {
            Some(name) => last_name(path@) == Some(name@),
            None => last_name(path@) is None,
        },
{
    std::path::Path::new(path).file_name().map(|name| name.to_string_lossy().into_owned())
}

/// What `std::path::Path::extension` says of a path: what stands behind the last
/// dot of its last component, where that is an extension.
pub uninterp spec fn path_extension(path: Seq<char>) -> Option<Seq<char>>;

/// `std::path::Path::extension`: a function of the path's text alone.
#[verifier::external_body]
pub(crate) fn extension(path: &str) -> (r: Option<String>)
    ensures
        match r {
            Some(ext) => path_extension(path@) == Some(ext@),
            None => path_extension(path@) is None,
        },
{
    std::path::Path::new(path).extension().map(|ext| ext.to_string_lossy().into_owned())
}

/// What `std::path::Path::with_extension` makes of a path: the path with another
/// extension.
pub uninterp spec fn extended_path(path: Seq<char>, ext: Seq<char>) -> Seq<char>;

/// `std::path::Path::with_extension`: a function of the two texts alone.
/// `ext` holds no slash: the call panics on one that does.
#[verifier::external_body]
pub(crate) fn with_extension(path: &str, ext: &str) -> (r: String)
    requires
        !ext@.contains('/'),
    ensures
        r@ == extended_path(path@, ext@),
{
    std::path::Path::new(path).with_extension(ext).to_string_lossy().into_owned()
}

/// The path of an entry is the directory's and the entry's name, with one slash
/// between them exactly where the directory is named and does not end in one.
pub proof fn an_entry_lies_in_its_directory(dir: &str, name: &str, r: String)
    requires
        call_ensures(join_path, (dir, name), r),
    ensures
        dir@.len() == 0 ==> r@ == name@,
        dir@.len() > 0 && dir@.last() == '/' ==> r@ == dir@ + name@,
        dir@.len() > 0 && dir@.last() != '/' ==> r@ == dir@ + seq!['/'] + name@,
{
    reveal_strlit("/");
    assert("/"@ =~= seq!['/']);
    if dir@.len() > 0 {
        let end = dir@.skip(dir@.len() - 1);
        assert(end =~= seq![dir@.last()]);
        assert(end[0] == dir@.last());
        assert(("/"@)[0] == '/');
    } else {
        assert(dir@ + name@ =~= name@);
    }
}

/// Whether the piece at a place counts as a component.
pub open spec fn counts(all: Seq<Seq<char>>) -> spec_fn(int) -> bool {
    |k: int| 0 <= k < all.len() && all[k].len() > 0 && (k == 0 || all[k] != "."@)
}

/// The piece at a place.
pub open spec fn piece_at(all: Seq<Seq<char>>) -> spec_fn(int) -> Seq<char> {
    |k: int| all[k]
}

/// The components are the pieces that count, in order.
proof fn lemma_components(all: Seq<Seq<char>>, n: int)
    requires
        0 <= n <= all.len(),
    ensures
        picked(n, counts(all), piece_at(all), components_of(all, n)),
    decreases n,
{
    if n == 0 {
        lemma_picked_none(counts(all), piece_at(all));
    } else {
        lemma_components(all, n - 1);
        lemma_picked_next(n - 1, counts(all), piece_at(all), components_of(all, n - 1));
    }
}

/// Two texts are one path exactly where both begin at the root or neither does, and
/// what stands between their slashes is the same, the empty pieces left out and every
/// `.` behind the first piece.
pub proof fn one_path_has_one_list_of_components(a: &str, b: &str, r: bool)
    requires
        call_ensures(is_same_path, (a, b), r),
    ensures
        r ==> (a@.len() > 0 && a@[0] == '/' <==> b@.len() > 0 && b@[0] == '/'),
        r ==> exists|list: Seq<Seq<char>>|
            #[trigger] are_components(a@, list) && are_components(b@, list),
        a@ == b@ ==> r,
        b@ == a@ + seq!['/'] && a@.len() > 0 ==> r,
{
    reveal_strlit("/");
    assert("/"@ =~= seq!['/']);
    lemma_components(pieces(a@, '/'), pieces(a@, '/').len() as int);
    lemma_components(pieces(b@, '/'), pieces(b@, '/').len() as int);
    if r {
        assert(are_components(a@, path_components(a@)));
        assert(are_components(b@, path_components(b@)));
        if a@.len() > 0 {
            assert(a@.take(1) =~= seq![a@[0]]);
            assert(a@.take(1)[0] == a@[0]);
        }
        if b@.len() > 0 {
            assert(b@.take(1) =~= seq![b@[0]]);
            assert(b@.take(1)[0] == b@[0]);
        }
        assert(("/"@)[0] == '/');
    }
    if b@ == a@ + seq!['/'] && a@.len() > 0 {
        let longer = pieces(b@, '/');
        let all = pieces(a@, '/');
        assert(b@.drop_last() =~= a@);
        assert(longer =~= all.push(Seq::empty()));
        lemma_same_components(all, longer, all.len() as int);
        assert(a@.take(1) =~= b@.take(1));
    }
}

/// Whether a list is what a path consists of.
pub open spec fn are_components(path: Seq<char>, list: Seq<Seq<char>>) -> bool {
    picked(pieces(path, '/').len() as int, counts(pieces(path, '/')), piece_at(pieces(path, '/')), list)
}

/// Pieces that agree have the same components.
proof fn lemma_same_components(all: Seq<Seq<char>>, longer: Seq<Seq<char>>, n: int)
    requires
        0 <= n <= all.len(),
        longer == all.push(Seq::empty()),
    ensures
        components_of(longer, n) == components_of(all, n),
    decreases n,
{
    if n > 0 {
        lemma_same_components(all, longer, n - 1);
        assert(longer[n - 1] == all[n - 1]);
    }
}

} // verus!

//! Mount paths of container nodes: `${parameters:<dot.path>}` references are
//! replaced by the instance's arguments, and the host side of every resolved
//! path is held against the system directories that may not be mounted.
use crate::text::{
    from_range, lemma_pieces, matches_at, pieces, push_char, stands_at, str_eq, to_chars,
};
use vstd::prelude::*;
use vstd::string::*;

verus! {

/// An argument value. A value that is neither text nor an object is held by
/// the name of its type.
pub enum AnyType {
    String(String),
    Object(Vec<(String, AnyType)>),
    Other(String),
}

/// The name of a value's type.
pub open spec fn kind_name_of(value: AnyType) -> Seq<char> {
    match value {
        AnyType::String(_) => "string"@,
        AnyType::Object(_) => "object"@,
        AnyType::Other(name) => name@,
    }
}

impl AnyType {
    /// The name of the value's type.
    pub fn kind_name(&self) -> (r: String)
        ensures
            r@ == kind_name_of(*self),
    {
        match self {
            AnyType::String(_) => "string".to_owned(),
            AnyType::Object(_) => "object".to_owned(),
            AnyType::Other(name) => name.clone(),
        }
    }
}

/// The value under `key`, looking from entry `from` on.
pub open spec fn field_from(
    fields: Seq<(String, AnyType)>,
    key: Seq<char>,
    from: int,
) -> Option<AnyType>
    decreases fields.len() - from,
{
    if from < 0 || from >= fields.len() {
        None
    } else if fields[from].0@ == key {
        Some(fields[from].1)
    } else {
        field_from(fields, key, from + 1)
    }
}

/// Where `part` first stands in `s` from position `from` on; -1 where it does
/// not.
pub open spec fn first_at(s: Seq<char>, part: Seq<char>, from: int) -> int
    decreases s.len() - from + 1,
{
    if from < 0 || from > s.len() {
        -1
    } else if stands_at(s, part, from) {
        from
    } else {
        first_at(s, part, from + 1)
    }
}

/// What a search finds lies inside the text.
pub proof fn lemma_first_at_bounds(s: Seq<char>, part: Seq<char>, from: int)
    requires
        0 <= from,
    ensures
        first_at(s, part, from) == -1 || (from <= first_at(s, part, from) && first_at(s, part, from)
            + part.len() <= s.len()),
    decreases s.len() - from + 1,
{
    if from <= s.len() && !stands_at(s, part, from) {
        lemma_first_at_bounds(s, part, from + 1);
    }
}

/// Where `part` first stands in `s` from position `from` on.
pub fn find_from(s: &Vec<char>, part: &Vec<char>, from: usize) -> (r: Option<usize>)
    requires
        from <= s@.len(),
    ensures
        match r {
            Some(at) => first_at(s@, part@, from as int) == at && from <= at && at + part.len()
                <= s.len(),
            None => first_at(s@, part@, from as int) == -1,
        },
{
    let mut i: usize = from;
    loop
        invariant
            from <= i <= s@.len(),
            first_at(s@, part@, from as int) == first_at(s@, part@, i as int),
        decreases s@.len() - i,
    {
        if matches_at(s, part, i) {
            return Some(i);
        }
        if i == s.len() {
            proof {
                assert(first_at(s@, part@, i + 1) == -1);
            }
            return None;
        }
        i += 1;
    }
}

/// The argument that a dotted path names: the part before the first dot is a
/// key, the rest a path inside that object.
pub open spec fn lookup(fields: Seq<(String, AnyType)>, path: Seq<char>) -> Option<AnyType>
    decreases path.len(),
{
    let dot = first_at(path, "."@, 0);
    if dot < 0 || dot >= path.len() {
        field_from(fields, path, 0)
    } else {
        match field_from(fields, path.take(dot), 0) {
            Some(AnyType::Object(inner)) => lookup(inner@, path.skip(dot + 1)),
            _ => None,
        }
    }
}

/// The value under `key`.
pub fn find_field<'a>(fields: &'a Vec<(String, AnyType)>, key: &str) -> (r: Option<&'a AnyType>)
    ensures
        match r {
            Some(value) => field_from(fields@, key@, 0) == Some(*value),
            None => field_from(fields@, key@, 0) is None,
        },
{
    let mut i: usize = 0;
    while i < fields.len()
        invariant
            i <= fields@.len(),
            field_from(fields@, key@, 0) == field_from(fields@, key@, i as int),
        decreases fields.len() - i,
    {
        if str_eq(fields[i].0.as_str(), key) {
            return Some(&fields[i].1);
        }
        i += 1;
    }
    None
}

/// The argument that a dotted path names.
pub fn resolve_argument_path<'a>(
    arguments: &'a Vec<(String, AnyType)>,
    path: &str,
) -> (r: Option<&'a AnyType>)
    ensures
        match r {
            Some(value) => lookup(arguments@, path@) == Some(*value),
            None => lookup(arguments@, path@) is None,
        },
{
    let chars = to_chars(path);
    let dot_part = to_chars(".");
    proof {
        reveal_strlit(".");
    }
    let mut fields: &'a Vec<(String, AnyType)> = arguments;
    let mut from: usize = 0;
    proof {
        assert(chars@.skip(0) =~= chars@);
    }
    loop
        invariant
            from <= chars@.len(),
            chars@ == path@,
            dot_part@ == "."@,
            "."@.len() == 1,
            lookup(arguments@, path@) == lookup(fields@, chars@.skip(from as int)),
        decreases chars@.len() - from,
    {
        let ghost rest = chars@.skip(from as int);
        proof {
            lemma_first_at_skip(chars@, "."@, from as int, from as int);
        }
        match find_from(&chars, &dot_part, from) {
            None => {
                let key = from_range(&chars, from, chars.len());
                proof {
                    assert(key@ =~= rest);
                }
                return find_field(fields, key.as_str());
            },
            Some(dot) => {
                let key = from_range(&chars, from, dot);
                proof {
                    assert(key@ =~= rest.take(dot - from));
                    assert(rest.skip(dot - from + 1) =~= chars@.skip(dot + 1));
                }
                match find_field(fields, key.as_str()) {
                    Some(AnyType::Object(inner)) => {
                        fields = inner;
                        from = dot + 1;
                    },
                    _ => {
                        return None;
                    },
                }
            },
        }
    }
}

/// Searching a text from a position on is searching what is left of it.
pub proof fn lemma_first_at_skip(s: Seq<char>, part: Seq<char>, base: int, from: int)
    requires
        0 <= base <= from <= s.len() + 1,
        base <= s.len(),
    ensures
        first_at(s, part, from) == -1 <==> first_at(s.skip(base), part, from - base) == -1,
        first_at(s, part, from) != -1 ==> first_at(s, part, from) - base == first_at(
            s.skip(base),
            part,
            from - base,
        ),
    decreases s.len() - from + 1,
{
    let rest = s.skip(base);
    if from <= s.len() {
        if from + part.len() <= s.len() {
            assert(s.subrange(from, from + part.len()) =~= rest.subrange(
                from - base,
                from - base + part.len(),
            ));
        }
        assert(stands_at(s, part, from) == stands_at(rest, part, from - base));
        if !stands_at(s, part, from) {
            lemma_first_at_skip(s, part, base, from + 1);
        } else {
            lemma_first_at_bounds(s, part, from);
        }
    }
}

/// Why a mount path cannot be used.
#[derive(Debug, PartialEq, Eq)]
pub enum MountError {
    /// A reference without its closing brace.
    Unclosed { mount: String },
    /// A reference to an argument that is no text.
    NotText { path: String, kind_name: String },
    /// A reference to an argument that is not there.
    NotFound { path: String },
    /// A resolved path whose host side may not be mounted.
    Blocked { resolved: String, source: String },
}

/// The contents of a `MountError`.
pub enum MountProblem {
    Unclosed { mount: Seq<char> },
    NotText { path: Seq<char>, kind_name: Seq<char> },
    NotFound { path: Seq<char> },
    Blocked { resolved: Seq<char>, source: Seq<char> },
}

impl View for MountError {
    type V = MountProblem;

    open spec fn view(&self) -> MountProblem {
        match self {
            MountError::Unclosed { mount } => MountProblem::Unclosed { mount: mount@ },
            MountError::NotText { path, kind_name } => MountProblem::NotText {
                path: path@,
                kind_name: kind_name@,
            },
            MountError::NotFound { path } => MountProblem::NotFound { path: path@ },
            MountError::Blocked { resolved, source } => MountProblem::Blocked {
                resolved: resolved@,
                source: source@,
            },
        }
    }
}

/// What opens a reference.
pub open spec fn opening() -> Seq<char> {
    "${parameters:"@
}

/// `mount` from position `from` on, its references replaced.
pub open spec fn substituted(
    mount: Seq<char>,
    from: int,
    arguments: Seq<(String, AnyType)>,
) -> Result<Seq<char>, MountProblem>
    decreases mount.len() - from,
{
    let start = first_at(mount, opening(), from);
    if start < from || from < 0 {
        Ok(mount.skip(from))
    } else {
        let inside = start + opening().len();
        let end = first_at(mount, "}"@, inside);
        if end < inside || end >= mount.len() {
            Err(MountProblem::Unclosed { mount })
        } else {
            let path = mount.subrange(inside, end);
            match lookup(arguments, path) {
                Some(AnyType::String(value)) => match substituted(mount, end + 1, arguments) {
                    Ok(rest) => Ok(mount.subrange(from, start) + value@ + rest),
                    Err(problem) => Err(problem),
                },
                Some(other) => Err(
                    MountProblem::NotText { path, kind_name: kind_name_of(other) },
                ),
                None => Err(MountProblem::NotFound { path }),
            }
        }
    }
}

/// The host side of a resolved mount path: what stands before its first
/// colon.
pub open spec fn host_side(resolved: Seq<char>) -> Seq<char> {
    let colon = first_at(resolved, ":"@, 0);
    if colon < 0 {
        resolved
    } else {
        resolved.take(colon)
    }
}

/// Whether this is an answer to whether a directory may not be mounted.
pub open spec fn answers<F: Fn(&str) -> bool>(
    is_blocked: F,
    source: Seq<char>,
    answer: bool,
) -> bool {
    exists|asked: &str| asked@ == source && #[trigger] is_blocked.ensures((asked,), answer)
}

/// Whether one mount path comes to this: it is refused where its host side may
/// not be mounted.
pub open spec fn resolves_to<F: Fn(&str) -> bool>(
    mount: Seq<char>,
    arguments: Seq<(String, AnyType)>,
    is_blocked: F,
    result: Result<Seq<char>, MountProblem>,
) -> bool {
    match substituted(mount, 0, arguments) {
        Ok(resolved) => {
            let source = host_side(resolved);
            ||| answers(is_blocked, source, false) && result == Ok::<Seq<char>, MountProblem>(
                resolved,
            )
            ||| answers(is_blocked, source, true) && result == Err::<Seq<char>, MountProblem>(
                MountProblem::Blocked { resolved, source },
            )
        },
        Err(problem) => result == Err::<Seq<char>, MountProblem>(problem),
    }
}

/// Whether a mount path can be used.
pub open spec fn is_usable<F: Fn(&str) -> bool>(
    mount: Seq<char>,
    arguments: Seq<(String, AnyType)>,
    is_blocked: F,
) -> bool {
    exists|path: Seq<char>| #[trigger]
        resolves_to(mount, arguments, is_blocked, Ok::<Seq<char>, MountProblem>(path))
}

/// Whether every mount path can be used, and what they resolve to.
pub open spec fn mounts_resolve<F: Fn(&str) -> bool>(
    mount_paths: Seq<String>,
    arguments: Seq<(String, AnyType)>,
    is_blocked: F,
    paths: Seq<String>,
) -> bool {
    paths.len() == mount_paths.len() && forall|k: int|
        0 <= k < paths.len() ==> resolves_to(
            (#[trigger] mount_paths[k])@,
            arguments,
            is_blocked,
            Ok::<Seq<char>, MountProblem>(paths[k]@),
        )
}

/// Whether this is the problem of the first mount path that cannot be used.
pub open spec fn first_problem<F: Fn(&str) -> bool>(
    mount_paths: Seq<String>,
    arguments: Seq<(String, AnyType)>,
    is_blocked: F,
    problem: MountProblem,
) -> bool {
    exists|i: int|
        0 <= i < mount_paths.len() && resolves_to(
            (#[trigger] mount_paths[i])@,
            arguments,
            is_blocked,
            Err::<Seq<char>, MountProblem>(problem),
        ) && forall|k: int|
            0 <= k < i ==> is_usable((#[trigger] mount_paths[k])@, arguments, is_blocked)
}

/// Appends `chars[from..to]` to a string.
fn push_range(out: &mut String, chars: &Vec<char>, from: usize, to: usize)
    requires
        from <= to <= chars@.len(),
    ensures
        final(out)@ == old(out)@ + chars@.subrange(from as int, to as int),
{
    let mut i: usize = from;
    let ghost before = out@;
    proof {
        assert(before + chars@.subrange(from as int, from as int) =~= before);
    }
    while i < to
        invariant
            from <= i <= to <= chars@.len(),
            out@ == before + chars@.subrange(from as int, i as int),
        decreases to - i,
    {
        push_char(out, chars[i]);
        proof {
            assert(out@ =~= before + chars@.subrange(from as int, i + 1));
        }
        i += 1;
    }
}

/// Replaces the references of one mount path.
fn substitute(mount: &str, arguments: &Vec<(String, AnyType)>) -> (r: Result<String, MountError>)
    ensures
        match r {
            Ok(text) => substituted(mount@, 0, arguments@) == Ok::<Seq<char>, MountProblem>(text@),
            Err(e) => substituted(mount@, 0, arguments@) == Err::<Seq<char>, MountProblem>(e@),
        },
{
    let chars = to_chars(mount);
    let open_part = to_chars("${parameters:");
    let close_part = to_chars("}");
    proof {
        reveal_strlit("${parameters:");
        reveal_strlit("}");
    }
    let mut out: String = String::new();
    let mut from: usize = 0;
    let ghost whole = substituted(mount@, 0, arguments@);
    proof {
        if let Ok(rest) = whole {
            assert(Seq::<char>::empty() + rest =~= rest);
        }
    }
    loop
        invariant
            from <= chars@.len(),
            chars@ == mount@,
            open_part@ == opening(),
            close_part@ == "}"@,
            "}"@.len() == 1,
            opening().len() == 13,
            whole == match substituted(mount@, from as int, arguments@) {
                Ok(rest) => Ok::<Seq<char>, MountProblem>(out@ + rest),
                Err(problem) => Err(problem),
            },
            whole == substituted(mount@, 0, arguments@),
        decreases chars@.len() - from,
    {
        match find_from(&chars, &open_part, from) {
            None => {
                push_range(&mut out, &chars, from, chars.len());
                proof {
                    assert(chars@.skip(from as int) =~= chars@.subrange(
                        from as int,
                        chars@.len() as int,
                    ));
                }
                return Ok(out);
            },
            Some(start) => {
                let inside: usize = start + open_part.len();
                match find_from(&chars, &close_part, inside) {
                    None => {
                        return Err(MountError::Unclosed { mount: mount.to_owned() });
                    },
                    Some(end) => {
                        let path = from_range(&chars, inside, end);
                        match resolve_argument_path(arguments, path.as_str()) {
                            Some(AnyType::String(value)) => {
                                let ghost before = out@;
                                push_range(&mut out, &chars, from, start);
                                out.append(value.as_str());
                                proof {
                                    let head = chars@.subrange(from as int, start as int);
                                    if let Ok(rest) = substituted(mount@, end + 1, arguments@) {
                                        assert(out@ + rest =~= before + (head + value@ + rest));
                                    }
                                }
                                from = end + 1;
                            },
                            Some(other) => {
                                return Err(
                                    MountError::NotText { path, kind_name: other.kind_name() },
                                );
                            },
                            None => {
                                return Err(MountError::NotFound { path });
                            },
                        }
                    },
                }
            },
        }
    }
}

/// The host side of a resolved mount path.
pub fn mount_source(resolved: &str) -> (r: String)
    ensures
        r@ == host_side(resolved@),
{
    let chars = to_chars(resolved);
    let colon_part = to_chars(":");
    match find_from(&chars, &colon_part, 0) {
        Some(colon) => {
            proof {
                assert(chars@.subrange(0, colon as int) =~= chars@.take(colon as int));
            }
            from_range(&chars, 0, colon)
        },
        None => resolved.to_owned(),
    }
}

/// Resolves mount paths against the instance's arguments, refusing the first
/// one that cannot be resolved or whose host side may not be mounted.
pub fn resolve_mounts<F: Fn(&str) -> bool>(
    mount_paths: &Vec<String>,
    arguments: &Vec<(String, AnyType)>,
    is_blocked: &F,
) -> (r: Result<Vec<String>, MountError>)
    requires
        forall|source: &str| #[trigger] is_blocked.requires((source,)),
    ensures
        match r {
            Ok(paths) => mounts_resolve(mount_paths@, arguments@, *is_blocked, paths@),
            Err(e) => first_problem(mount_paths@, arguments@, *is_blocked, e@),
        },
{
    let mut paths: Vec<String> = Vec::new();
    let mut i: usize = 0;
    while i < mount_paths.len()
        invariant
            i <= mount_paths@.len(),
            paths@.len() == i,
            forall|source: &str| #[trigger] is_blocked.requires((source,)),
            forall|k: int|
                0 <= k < i ==> resolves_to(
                    (#[trigger] mount_paths@[k])@,
                    arguments@,
                    *is_blocked,
                    Ok::<Seq<char>, MountProblem>(paths@[k]@),
                ),
        decreases mount_paths.len() - i,
    {
        let ghost mount = mount_paths@[i as int];
        proof {
            assert forall|k: int| 0 <= k < i implies is_usable(
                (#[trigger] mount_paths@[k])@,
                arguments@,
                *is_blocked,
            ) by {
                assert(resolves_to(
                    mount_paths@[k]@,
                    arguments@,
                    *is_blocked,
                    Ok::<Seq<char>, MountProblem>(paths@[k]@),
                ));
            }
        }
        match substitute(mount_paths[i].as_str(), arguments) {
            Err(e) => {
                proof {
                    assert(resolves_to(
                        mount@,
                        arguments@,
                        *is_blocked,
                        Err::<Seq<char>, MountProblem>(e@),
                    ));
                }
                return Err(e);
            },
            Ok(resolved) => {
                let source = mount_source(resolved.as_str());
                let asked = source.as_str();
                let answer = is_blocked(asked);
                proof {
                    assert(asked@ == source@ && is_blocked.ensures((asked,), answer));
                    assert(answers(*is_blocked, host_side(resolved@), answer));
                }
                if answer {
                    return Err(MountError::Blocked { resolved, source });
                }
                paths.push(resolved);
            },
        }
        i += 1;
    }
    Ok(paths)
}

/// Whether the entry at a place is the first under its key.
pub open spec fn is_first(fields: Seq<(String, AnyType)>, key: Seq<char>, at: int) -> bool {
    &&& 0 <= at < fields.len()
    &&& fields[at].0@ == key
    &&& forall|k: int| 0 <= k < at ==> (#[trigger] fields[k]).0@ != key
}

/// The value under a key is that of the first entry which has it.
pub proof fn lemma_field(fields: Seq<(String, AnyType)>, key: Seq<char>, from: int)
    requires
        0 <= from <= fields.len(),
        forall|k: int| 0 <= k < from ==> (#[trigger] fields[k]).0@ != key,
    ensures
        match field_from(fields, key, from) {
            Some(value) => exists|i: int| #[trigger] is_first(fields, key, i) && fields[i].1 == value,
            None => forall|i: int| !#[trigger] is_first(fields, key, i),
        },
    decreases fields.len() - from,
{
    if from < fields.len() {
        if fields[from].0@ == key {
            assert(is_first(fields, key, from));
        } else {
            lemma_field(fields, key, from + 1);
        }
    }
}

/// A value is found under a key exactly where an entry has that key, and it is the
/// first such entry's.
pub proof fn the_first_entry_of_a_key_counts(
    fields: Vec<(String, AnyType)>,
    key: &str,
    r: Option<&AnyType>,
)
    requires
        call_ensures(find_field, (&fields, key), r),
    ensures
        match r {
            Some(value) => exists|i: int|
                #[trigger] is_first(fields@, key@, i) && fields@[i].1 == *value,
            None => forall|i: int| 0 <= i < fields@.len() ==> (#[trigger] fields@[i]).0@ != key@,
        },
{
    lemma_field(fields@, key@, 0);
    if r is None {
        assert forall|i: int| 0 <= i < fields@.len() implies (#[trigger] fields@[i]).0@ != key@ by {
            lemma_no_first(fields@, key@, i);
        }
    }
}

/// Where a key has no first entry, it has none at all.
proof fn lemma_no_first(fields: Seq<(String, AnyType)>, key: Seq<char>, at: int)
    requires
        forall|i: int| !#[trigger] is_first(fields, key, i),
        0 <= at < fields.len(),
    ensures
        fields[at].0@ != key,
        forall|k: int| 0 <= k <= at ==> (#[trigger] fields[k]).0@ != key,
    decreases at,
{
    if at > 0 {
        lemma_no_first(fields, key, at - 1);
    }
    assert(!is_first(fields, key, at));
}

/// Where a text first stands is the first place where it stands.
proof fn lemma_first_at_is_first(s: Seq<char>, part: Seq<char>, from: int)
    requires
        0 <= from,
    ensures
        first_at(s, part, from) >= 0 ==> from <= first_at(s, part, from) && stands_at(
            s,
            part,
            first_at(s, part, from),
        ) && forall|k: int|
            from <= k < first_at(s, part, from) ==> !#[trigger] stands_at(s, part, k),
        first_at(s, part, from) < 0 ==> first_at(s, part, from) == -1 && forall|k: int|
            from <= k ==> !#[trigger] stands_at(s, part, k),
    decreases s.len() - from + 1,
{
    if from <= s.len() && !stands_at(s, part, from) {
        lemma_first_at_is_first(s, part, from + 1);
    }
}

/// A search finds the first place where a text stands, and nothing exactly where
/// there is none.
pub proof fn a_search_finds_the_first_place(
    s: Vec<char>,
    part: Vec<char>,
    from: usize,
    r: Option<usize>,
)
    requires
        from <= s@.len(),
        call_ensures(find_from, (&s, &part, from), r),
    ensures
        match r {
            Some(at) => from <= at && stands_at(s@, part@, at as int) && forall|k: int|
                from <= k < at ==> !#[trigger] stands_at(s@, part@, k),
            None => forall|k: int| from <= k ==> !#[trigger] stands_at(s@, part@, k),
        },
{
    lemma_first_at_is_first(s@, part@, from as int);
}

/// One character stands where it is.
proof fn lemma_one_char(s: Seq<char>, c: char, k: int)
    ensures
        stands_at(s, seq![c], k) <==> 0 <= k < s.len() && s[k] == c,
{
    if 0 <= k < s.len() {
        assert(s.subrange(k, k + 1) =~= seq![s[k]]);
        if s[k] != c {
            assert(s.subrange(k, k + 1)[0] != seq![c][0]);
        }
    }
}

/// The host side of a mount path is what stands before its first colon: it holds
/// none, and a colon follows it unless it is the whole path.
pub proof fn the_host_side_ends_at_the_first_colon(resolved: &str, r: String)
    requires
        call_ensures(mount_source, (resolved,), r),
    ensures
        r@.len() <= resolved@.len(),
        r@ == resolved@.take(r@.len() as int),
        !r@.contains(':'),
        r@.len() < resolved@.len() ==> resolved@[r@.len() as int] == ':',
{
    lemma_host_side(resolved@);
}

/// Where the host side of a mount path ends.
proof fn lemma_host_side(resolved: Seq<char>)
    ensures
        host_side(resolved).len() <= resolved.len(),
        host_side(resolved) == resolved.take(host_side(resolved).len() as int),
        !host_side(resolved).contains(':'),
        host_side(resolved).len() < resolved.len() ==> resolved[host_side(resolved).len() as int]
            == ':',
{
    reveal_strlit(":");
    assert(":"@ =~= seq![':']);
    let side = host_side(resolved);
    let colon = first_at(resolved, ":"@, 0);
    lemma_first_at_is_first(resolved, ":"@, 0);
    if colon >= 0 {
        lemma_one_char(resolved, ':', colon);
    } else {
        assert(resolved.take(resolved.len() as int) =~= resolved);
    }
    if side.contains(':') {
        let k = choose|k: int| 0 <= k < side.len() && side[k] == ':';
        lemma_one_char(resolved, ':', k);
        assert(resolved[k] == ':');
        assert(stands_at(resolved, ":"@, k));
    }
}

/// The value that keys lead to, followed one by one.
pub open spec fn value_along(fields: Seq<(String, AnyType)>, keys: Seq<Seq<char>>) -> Option<AnyType>
    decreases keys.len(),
{
    if keys.len() == 0 {
        None
    } else if keys.len() == 1 {
        field_from(fields, keys[0], 0)
    } else {
        match field_from(fields, keys[0], 0) {
            Some(AnyType::Object(inner)) => value_along(inner@, keys.skip(1)),
            _ => None,
        }
    }
}

/// The first piece of a text ends at the first separator.
proof fn lemma_first_piece(s: Seq<char>, sep: char, at: int)
    requires
        0 <= at <= s.len(),
        forall|k: int| 0 <= k < at ==> #[trigger] s[k] != sep,
        at < s.len() ==> s[at] == sep,
    ensures
        at == s.len() ==> pieces(s, sep) == seq![s],
        at < s.len() ==> pieces(s, sep) == seq![s.take(at)] + pieces(s.skip(at + 1), sep),
    decreases s.len(),
{
    if s.len() == 0 {
        assert(s =~= Seq::<char>::empty());
    } else {
        let less = s.drop_last();
        if at == s.len() {
            lemma_first_piece(less, sep, at - 1);
            assert(less.push(s.last()) =~= s);
            assert(s[at - 1] != sep);
            assert(pieces(s, sep) =~= seq![s]);
        } else if at == s.len() - 1 {
            lemma_first_piece(less, sep, at);
            assert(less =~= s.take(at));
            assert(s.skip(at + 1) =~= Seq::<char>::empty());
            assert(pieces(s, sep) =~= seq![s.take(at)] + pieces(s.skip(at + 1), sep));
        } else {
            lemma_first_piece(less, sep, at);
            let rest = s.skip(at + 1);
            assert(less.take(at) =~= s.take(at));
            assert(less.skip(at + 1) =~= rest.drop_last());
            assert(rest.last() == s.last());
            lemma_pieces(rest.drop_last(), sep);
            let inner = pieces(rest.drop_last(), sep);
            assert((seq![s.take(at)] + inner).last() == inner.last());
            assert((seq![s.take(at)] + inner).drop_last() =~= seq![s.take(at)] + inner.drop_last());
            assert(pieces(s, sep) =~= seq![s.take(at)] + pieces(rest, sep));
        }
    }
}

/// A lookup follows the pieces of its path.
proof fn lemma_lookup(fields: Seq<(String, AnyType)>, path: Seq<char>)
    ensures
        lookup(fields, path) == value_along(fields, pieces(path, '.')),
    decreases path.len(),
{
    reveal_strlit(".");
    assert("."@ =~= seq!['.']);
    let dot = first_at(path, "."@, 0);
    lemma_first_at_is_first(path, "."@, 0);
    assert forall|k: int| 0 <= k < path.len() && (dot < 0 || k < dot) implies #[trigger] path[k]
        != '.' by {
        lemma_one_char(path, '.', k);
        assert(!stands_at(path, "."@, k));
    }
    if dot < 0 {
        lemma_first_piece(path, '.', path.len() as int);
    } else {
        lemma_one_char(path, '.', dot);
        lemma_first_piece(path, '.', dot);
        let rest = path.skip(dot + 1);
        let keys = pieces(path, '.');
        lemma_pieces(rest, '.');
        assert(keys.skip(1) =~= pieces(rest, '.'));
        assert(keys[0] == path.take(dot));
        if let Some(AnyType::Object(inner)) = field_from(fields, path.take(dot), 0) {
            lemma_lookup(inner@, rest);
        }
    }
}

/// A dotted path is followed key by key: what it leads to is what its pieces
/// between the dots lead to, one inside the other.
pub proof fn a_dotted_path_is_followed_key_by_key(
    arguments: Vec<(String, AnyType)>,
    path: &str,
    r: Option<&AnyType>,
)
    requires
        call_ensures(resolve_argument_path, (&arguments, path), r),
    ensures
        match r {
            Some(value) => value_along(arguments@, pieces(path@, '.')) == Some(*value),
            None => value_along(arguments@, pieces(path@, '.')) is None,
        },
{
    lemma_lookup(arguments@, path@);
}

/// What one reference, with the text before it, does to a mount path.
proof fn lemma_substituted_shift(
    mount: Seq<char>,
    base: int,
    from: int,
    arguments: Seq<(String, AnyType)>,
)
    requires
        0 <= base <= from <= mount.len(),
    ensures
        match substituted(mount.skip(base), from - base, arguments) {
            Ok(text) => substituted(mount, from, arguments) == Ok::<Seq<char>, MountProblem>(text),
            Err(MountProblem::Unclosed { .. }) => substituted(mount, from, arguments) == Err::<
                Seq<char>,
                MountProblem,
            >(MountProblem::Unclosed { mount }),
            Err(problem) => substituted(mount, from, arguments) == Err::<Seq<char>, MountProblem>(
                problem,
            ),
        },
    decreases mount.len() - from,
{
    reveal_strlit("${parameters:");
    reveal_strlit("}");
    let rest = mount.skip(base);
    lemma_first_at_skip(mount, opening(), base, from);
    lemma_first_at_bounds(mount, opening(), from);
    let start = first_at(mount, opening(), from);
    if start < from {
        assert(rest.skip(from - base) =~= mount.skip(from));
    } else {
        let inside = start + opening().len();
        lemma_first_at_skip(mount, "}"@, base, inside);
        lemma_first_at_bounds(mount, "}"@, inside);
        let end = first_at(mount, "}"@, inside);
        if end >= inside && end < mount.len() {
            assert(rest.subrange(inside - base, end - base) =~= mount.subrange(inside, end));
            assert(rest.subrange(from - base, start - base) =~= mount.subrange(from, start));
            lemma_substituted_shift(mount, base, end + 1, arguments);
        }
    }
}

/// References are replaced one after the other. A path without one stays as it is.
/// In a path that begins with plain text and a reference, the plain text stays, the
/// reference becomes the text that the arguments hold there, and what is left is
/// replaced as a path of its own would be. A reference to nothing, or to what is no
/// text, is refused by its name.
pub proof fn references_are_replaced_one_by_one(
    plain: Seq<char>,
    name: Seq<char>,
    rest: Seq<char>,
    arguments: Seq<(String, AnyType)>,
)
    requires
        !name.contains('}'),
        forall|k: int|
            k < plain.len() ==> !#[trigger] stands_at(
                plain + opening() + name + "}"@ + rest,
                opening(),
                k,
            ),
        forall|k: int| !#[trigger] stands_at(plain, opening(), k),
    ensures
        substituted(plain, 0, arguments) == Ok::<Seq<char>, MountProblem>(plain),
        ({
            let whole = substituted(plain + opening() + name + "}"@ + rest, 0, arguments);
            match value_along(arguments, pieces(name, '.')) {
                Some(AnyType::String(value)) => match substituted(rest, 0, arguments) {
                    Ok(told) => whole == Ok::<Seq<char>, MountProblem>(plain + value@ + told),
                    Err(MountProblem::Unclosed { .. }) => whole matches Err(
                        MountProblem::Unclosed { .. },
                    ),
                    Err(problem) => whole == Err::<Seq<char>, MountProblem>(problem),
                },
                Some(other) => whole matches Err(MountProblem::NotText { path, .. }) && path == name,
                None => whole == Err::<Seq<char>, MountProblem>(
                    MountProblem::NotFound { path: name },
                ),
            }
        }),
{
    reveal_strlit("${parameters:");
    reveal_strlit("}");
    assert("}"@ =~= seq!['}']);
    lemma_lookup(arguments, name);
    lemma_first_at_is_first(plain, opening(), 0);
    assert(plain.skip(0) =~= plain);
    let mount = plain + opening() + name + "}"@ + rest;
    let start = plain.len() as int;
    let inside = start + opening().len();
    let end = inside + name.len();
    lemma_first_at_is_first(mount, opening(), 0);
    assert(stands_at(mount, opening(), start)) by {
        assert(mount.subrange(start, inside) =~= opening());
    }
    assert(first_at(mount, opening(), 0) == start);
    lemma_first_at_is_first(mount, "}"@, inside);
    assert(stands_at(mount, "}"@, end)) by {
        lemma_one_char(mount, '}', end);
    }
    assert forall|k: int| inside <= k < end implies !#[trigger] stands_at(mount, "}"@, k) by {
        lemma_one_char(mount, '}', k);
        assert(mount[k] == name[k - inside]);
        assert(name.contains(name[k - inside]));
    }
    assert(first_at(mount, "}"@, inside) == end);
    assert(mount.subrange(inside, end) =~= name);
    assert(mount.subrange(0, start) =~= plain);
    assert(mount.skip(end + 1) =~= rest);
    lemma_substituted_shift(mount, end + 1, end + 1, arguments);
}

/// Mount paths are resolved all together or not at all, each in its place and to
/// what its references come to, and a directory that may not be mounted is on the
/// host side of none. A refusal is for a path that does not resolve, or whose host
/// side may not be mounted.
pub proof fn a_blocked_directory_is_never_mounted<F: Fn(&str) -> bool>(
    mount_paths: Vec<String>,
    arguments: Vec<(String, AnyType)>,
    is_blocked: F,
    r: Result<Vec<String>, MountError>,
)
    requires
        call_ensures(resolve_mounts::<F>, (&mount_paths, &arguments, &is_blocked), r),
    ensures
        match r {
            Ok(paths) => paths@.len() == mount_paths@.len() && forall|k: int|
                0 <= k < paths@.len() ==> substituted((#[trigger] mount_paths@[k])@, 0, arguments@)
                    == Ok::<Seq<char>, MountProblem>(paths@[k]@) && exists|asked: &str|
                    asked@ == host_side(paths@[k]@) && #[trigger] is_blocked.ensures(
                        (asked,),
                        false,
                    ),
            Err(MountError::Blocked { resolved, source }) => source@ == host_side(resolved@)
                && exists|asked: &str|
                asked@ == source@ && #[trigger] is_blocked.ensures((asked,), true),
            Err(e) => exists|k: int|
                0 <= k < mount_paths@.len() && substituted(
                    (#[trigger] mount_paths@[k])@,
                    0,
                    arguments@,
                ) == Err::<Seq<char>, MountProblem>(e@),
        },
{
    match r {
        Ok(paths) => {
            assert forall|k: int| 0 <= k < paths@.len() implies substituted(
                (#[trigger] mount_paths@[k])@,
                0,
                arguments@,
            ) == Ok::<Seq<char>, MountProblem>(paths@[k]@) && exists|asked: &str|
                asked@ == host_side(paths@[k]@) && #[trigger] is_blocked.ensures((asked,), false) by {
                assert(resolves_to(
                    mount_paths@[k]@,
                    arguments@,
                    is_blocked,
                    Ok::<Seq<char>, MountProblem>(paths@[k]@),
                ));
                assert(answers(is_blocked, host_side(paths@[k]@), false));
            }
        },
        Err(e) => {
            let i = choose|i: int|
                0 <= i < mount_paths@.len() && resolves_to(
                    (#[trigger] mount_paths@[i])@,
                    arguments@,
                    is_blocked,
                    Err::<Seq<char>, MountProblem>(e@),
                ) && forall|k: int|
                    0 <= k < i ==> is_usable((#[trigger] mount_paths@[k])@, arguments@, is_blocked);
            let mount = mount_paths@[i]@;
            if let Err(problem) = substituted(mount, 0, arguments@) {
                lemma_no_blocked(mount, 0, arguments@);
            }
        },
    }
}

/// Replacing references blocks nothing.
proof fn lemma_no_blocked(mount: Seq<char>, from: int, arguments: Seq<(String, AnyType)>)
    requires
        0 <= from,
    ensures
        !(substituted(mount, from, arguments) matches Err(MountProblem::Blocked { .. })),
    decreases mount.len() - from,
{
    let start = first_at(mount, opening(), from);
    if start >= from {
        let inside = start + opening().len();
        let end = first_at(mount, "}"@, inside);
        if end >= inside && end < mount.len() {
            lemma_no_blocked(mount, end + 1, arguments);
        }
    }
}

} // verus!

//! The parameters that a node's manifest asks for, held against the arguments
//! of an instance.
use crate::mounts::{field_from, find_field, is_first, lemma_field, AnyType};
use crate::text::{joined, texts};
use vstd::prelude::*;
use vstd::string::*;

verus! {

/// A path with one more key behind it.
pub open spec fn below(path: Seq<char>, key: Seq<char>) -> Seq<char> {
    path + "."@ + key
}

/// The path of a top-level key, or of a key below `prefix`.
pub open spec fn path_of(prefix: Seq<char>, key: Seq<char>) -> Seq<char> {
    if prefix.len() == 0 {
        key
    } else {
        below(prefix, key)
    }
}

/// The paths of all leaves of a schema value that stands at `path`.
pub open spec fn required_paths(value: AnyType, path: Seq<char>) -> Seq<Seq<char>>
    decreases value, 0int,
{
    match value {
        AnyType::Object(fields) => required_below(fields, path, fields@.len() as int),
        _ => seq![path],
    }
}

/// The paths of all leaves of the first `n` fields of a schema object that
/// stands at `path`.
pub open spec fn required_below(
    fields: Vec<(String, AnyType)>,
    path: Seq<char>,
    n: int,
) -> Seq<Seq<char>>
    decreases fields, n,
{
    if n <= 0 || n > fields@.len() {
        Seq::empty()
    } else {
        required_below(fields, path, n - 1) + required_paths(
            fields@[n - 1].1,
            below(path, fields@[n - 1].0@),
        )
    }
}

/// The paths that are missing of the first `n` fields of a schema: every leaf
/// of a field that has no argument, or whose argument is no object where the
/// schema's is one.
pub open spec fn missing_paths(
    schema: Vec<(String, AnyType)>,
    arguments: Seq<(String, AnyType)>,
    prefix: Seq<char>,
    n: int,
) -> Seq<Seq<char>>
    decreases schema, n,
{
    if n <= 0 || n > schema@.len() {
        Seq::empty()
    } else {
        let key = schema@[n - 1].0@;
        let path = path_of(prefix, key);
        missing_paths(schema, arguments, prefix, n - 1) + match (
            field_from(arguments, key, 0),
            schema@[n - 1].1,
        ) {
            (None, value) => required_paths(value, path),
            (Some(AnyType::Object(given)), AnyType::Object(wanted)) => missing_paths(
                wanted,
                given@,
                path,
                wanted@.len() as int,
            ),
            (Some(_), AnyType::Object(wanted)) => required_paths(schema@[n - 1].1, path),
            (Some(_), _) => Seq::empty(),
        }
    }
}

/// The path of a key below `path`.
fn join_path(path: &str, key: &str) -> (r: String)
    ensures
        r@ == below(path@, key@),
{
    let mut out: String = path.to_owned();
    out.append(".");
    out.append(key);
    out
}

/// Adds the paths of all leaves of a schema value that stands at `path`.
pub fn collect_all_required_paths(value: &AnyType, path: &str, missing: &mut Vec<String>)
    ensures
        texts(final(missing)@) == texts(old(missing)@) + required_paths(*value, path@),
    decreases *value,
{
    match value {
        AnyType::Object(fields) => {
            let ghost before = texts(missing@);
            let mut i: usize = 0;
            proof {
                assert(before + required_below(*fields, path@, 0) =~= before);
            }
            while i < fields.len()
                invariant
                    i <= fields@.len(),
                    *value == AnyType::Object(*fields),
                    texts(missing@) == before + required_below(*fields, path@, i as int),
                decreases fields.len() - i,
            {
                let nested = join_path(path, fields[i].0.as_str());
                proof {
                    assert(decreases_to!(*value => (*value)->Object_0));
                    assert(decreases_to!(*fields => fields@));
                    assert(decreases_to!(fields@ => fields@[i as int]));
                    assert(decreases_to!(fields@[i as int] => fields@[i as int].1));
                }
                collect_all_required_paths(&fields[i].1, nested.as_str(), missing);
                proof {
                    let added = required_paths(fields@[i as int].1, below(path@, fields@[i as int].0@));
                    assert(before + required_below(*fields, path@, i as int) + added =~= before
                        + required_below(*fields, path@, i + 1));
                }
                i += 1;
            }
        },
        _ => {
            let ghost before = texts(missing@);
            missing.push(path.to_owned());
            proof {
                assert(texts(missing@) =~= before + seq![path@]);
            }
        },
    }
}

/// The paths of all parameters that a schema asks for and the arguments lack.
pub fn validate_parameters(
    schema: &Vec<(String, AnyType)>,
    arguments: &Vec<(String, AnyType)>,
    prefix: &str,
) -> (r: Vec<String>)
    ensures
        texts(r@) == missing_paths(*schema, arguments@, prefix@, schema@.len() as int),
    decreases *schema,
{
    let mut missing: Vec<String> = Vec::new();
    let mut i: usize = 0;
    proof {
        assert(texts(missing@) =~= Seq::<Seq<char>>::empty());
    }
    while i < schema.len()
        invariant
            i <= schema@.len(),
            texts(missing@) == missing_paths(*schema, arguments@, prefix@, i as int),
        decreases schema.len() - i,
    {
        let key = &schema[i].0;
        let path: String = if prefix.is_empty() {
            key.clone()
        } else {
            join_path(prefix, key.as_str())
        };
        proof {
            assert(path@ == path_of(prefix@, key@));
        }
        let ghost before = texts(missing@);
        match find_field(arguments, key.as_str()) {
            None => {
                collect_all_required_paths(&schema[i].1, path.as_str(), &mut missing);
            },
            Some(given) => {
                if let AnyType::Object(wanted) = &schema[i].1 {
                    if let AnyType::Object(inner) = given {
                        proof {
                            assert(decreases_to!(*schema => schema@));
                            assert(decreases_to!(schema@ => schema@[i as int]));
                            assert(decreases_to!(schema@[i as int] => schema@[i as int].1));
                            assert(decreases_to!(schema@[i as int].1 => (schema@[i as int].1)->Object_0));
                        }
                        let mut more = validate_parameters(wanted, inner, path.as_str());
                        let ghost added = texts(more@);
                        missing.append(&mut more);
                        proof {
                            assert(texts(missing@) =~= before + added);
                        }
                    } else {
                        collect_all_required_paths(&schema[i].1, path.as_str(), &mut missing);
                    }
                } else {
                    proof {
                        assert(before + Seq::<Seq<char>>::empty() =~= before);
                    }
                }
            },
        }
        i += 1;
    }
    missing
}

/// Whether keys, followed one by one through a schema, lead to a parameter: a
/// value that is no object.
pub open spec fn leads_to_parameter(fields: Seq<(String, AnyType)>, keys: Seq<Seq<char>>) -> bool
    decreases keys.len(),
{
    keys.len() > 0 && exists|i: int|
        0 <= i < fields.len() && (#[trigger] fields[i]).0@ == keys[0] && match fields[i].1 {
            AnyType::Object(inner) => keys.len() > 1 && leads_to_parameter(inner@, keys.skip(1)),
            _ => keys.len() == 1,
        }
}

/// Whether keys, followed one by one through arguments, lead to a value.
pub open spec fn is_given(arguments: Seq<(String, AnyType)>, keys: Seq<Seq<char>>) -> bool
    decreases keys.len(),
{
    keys.len() > 0 && exists|i: int|
        #[trigger] is_first(arguments, keys[0], i) && (keys.len() == 1 || (
        arguments[i].1 matches AnyType::Object(inner) && is_given(inner@, keys.skip(1))))
}

/// The dotted path of keys, below a prefix where there is one.
pub open spec fn dotted(prefix: Seq<char>, keys: Seq<Seq<char>>) -> Seq<char> {
    if prefix.len() == 0 {
        joined(keys, "."@)
    } else {
        joined(seq![prefix] + keys, "."@)
    }
}

/// Whether no key is blank.
pub open spec fn all_named(keys: Seq<Seq<char>>) -> bool {
    forall|k: int| 0 <= k < keys.len() ==> (#[trigger] keys[k]).len() > 0
}

/// A join of a list is the join of the list whose first two entries are joined.
proof fn lemma_join_front(a: Seq<char>, b: Seq<char>, rest: Seq<Seq<char>>, sep: Seq<char>)
    ensures
        joined(seq![a, b] + rest, sep) == joined(seq![a + sep + b] + rest, sep),
    decreases rest.len(),
{
    let long = seq![a, b] + rest;
    let short = seq![a + sep + b] + rest;
    if rest.len() == 0 {
        assert(long.drop_last() =~= seq![a]);
        assert(short.drop_last() =~= Seq::<Seq<char>>::empty());
        assert(joined(seq![a], sep) == a) by {
            assert(seq![a].drop_last() =~= Seq::<Seq<char>>::empty());
        }
    } else {
        assert(long.drop_last() =~= seq![a, b] + rest.drop_last());
        assert(short.drop_last() =~= seq![a + sep + b] + rest.drop_last());
        lemma_join_front(a, b, rest.drop_last(), sep);
    }
}

/// A path below a key is the dotted path of that key and the others.
proof fn lemma_dotted(prefix: Seq<char>, key: Seq<char>, rest: Seq<Seq<char>>)
    ensures
        joined(seq![path_of(prefix, key)] + rest, "."@) == dotted(prefix, seq![key] + rest),
        joined(seq![below(prefix, key)] + rest, "."@) == joined(seq![prefix] + (seq![key] + rest), "."@),
{
    lemma_join_front(prefix, key, rest, "."@);
    assert(seq![prefix, key] + rest =~= seq![prefix] + (seq![key] + rest));
}

/// One text alone is its own join.
proof fn lemma_join_one(a: Seq<char>)
    ensures
        joined(seq![a], "."@) == a,
{
    assert(seq![a].drop_last() =~= Seq::<Seq<char>>::empty());
}

/// The required paths of a schema object are the dotted paths of its parameters.
proof fn lemma_required(
    fields: Vec<(String, AnyType)>,
    path: Seq<char>,
    n: int,
    keys: Seq<Seq<char>>,
)
    requires
        0 <= n <= fields@.len(),
        leads_to_parameter(fields@.take(n), keys),
    ensures
        required_below(fields, path, n).contains(joined(seq![path] + keys, "."@)),
    decreases fields, n,
{
    let first = fields@.take(n);
    let i = choose|i: int|
        0 <= i < first.len() && (#[trigger] first[i]).0@ == keys[0] && match first[i].1 {
            AnyType::Object(inner) => keys.len() > 1 && leads_to_parameter(inner@, keys.skip(1)),
            _ => keys.len() == 1,
        };
    assert(first[i] == fields@[i]);
    let whole = required_below(fields, path, n);
    let before = required_below(fields, path, n - 1);
    let added = required_paths(fields@[n - 1].1, below(path, fields@[n - 1].0@));
    let wanted = joined(seq![path] + keys, "."@);
    if i < n - 1 {
        let less = fields@.take(n - 1);
        assert(less[i] == fields@[i]);
        assert(leads_to_parameter(less, keys));
        lemma_required(fields, path, n - 1, keys);
        let k = choose|k: int| 0 <= k < before.len() && before[k] == wanted;
        assert(whole[k] == wanted);
    } else {
        let key = fields@[i].0@;
        let rest = keys.skip(1);
        assert(keys =~= seq![key] + rest);
        lemma_dotted(path, key, rest);
        match fields@[i].1 {
            AnyType::Object(inner) => {
                assert(decreases_to!(fields => fields@));
                assert(decreases_to!(fields@ => fields@[i]));
                assert(decreases_to!(fields@[i] => fields@[i].1));
                assert(decreases_to!(fields@[i].1 => (fields@[i].1)->Object_0));
                assert(inner@.take(inner@.len() as int) =~= inner@);
                lemma_required(inner, below(path, key), inner@.len() as int, rest);
            },
            _ => {
                assert(rest =~= Seq::<Seq<char>>::empty());
                assert(seq![below(path, key)] + rest =~= seq![below(path, key)]);
                lemma_join_one(below(path, key));
                assert(added[0] == wanted);
            },
        }
        let k = choose|k: int| 0 <= k < added.len() && added[k] == wanted;
        assert(whole[before.len() + k] == wanted);
    }
}

/// The required paths of a schema object lead to its parameters.
proof fn lemma_required_leads(
    fields: Vec<(String, AnyType)>,
    path: Seq<char>,
    n: int,
    told: Seq<char>,
) -> (keys: Seq<Seq<char>>)
    requires
        0 <= n <= fields@.len(),
        required_below(fields, path, n).contains(told),
    ensures
        leads_to_parameter(fields@.take(n), keys),
        told == joined(seq![path] + keys, "."@),
    decreases fields, n,
{
    let whole = required_below(fields, path, n);
    let before = required_below(fields, path, n - 1);
    let key = fields@[n - 1].0@;
    let added = required_paths(fields@[n - 1].1, below(path, key));
    let k = choose|k: int| 0 <= k < whole.len() && whole[k] == told;
    let first = fields@.take(n);
    if k < before.len() {
        assert(before[k] == told);
        let keys = lemma_required_leads(fields, path, n - 1, told);
        let less = fields@.take(n - 1);
        let i = choose|i: int|
            0 <= i < less.len() && (#[trigger] less[i]).0@ == keys[0] && match less[i].1 {
                AnyType::Object(inner) => keys.len() > 1 && leads_to_parameter(
                    inner@,
                    keys.skip(1),
                ),
                _ => keys.len() == 1,
            };
        assert(first[i] == less[i]);
        keys
    } else {
        assert(added[k - before.len()] == told);
        assert(first[n - 1] == fields@[n - 1]);
        match fields@[n - 1].1 {
            AnyType::Object(inner) => {
                assert(decreases_to!(fields => fields@));
                assert(decreases_to!(fields@ => fields@[n - 1]));
                assert(decreases_to!(fields@[n - 1] => fields@[n - 1].1));
                assert(decreases_to!(fields@[n - 1].1 => (fields@[n - 1].1)->Object_0));
                assert(required_below(inner, below(path, key), inner@.len() as int).contains(told));
                let rest = lemma_required_leads(
                    inner,
                    below(path, key),
                    inner@.len() as int,
                    told,
                );
                assert(inner@.take(inner@.len() as int) =~= inner@);
                let keys = seq![key] + rest;
                assert(keys.skip(1) =~= rest);
                lemma_dotted(path, key, rest);
                keys
            },
            _ => {
                let none = Seq::<Seq<char>>::empty();
                let keys = seq![key] + none;
                lemma_dotted(path, key, none);
                assert(seq![below(path, key)] + none =~= seq![below(path, key)]);
                lemma_join_one(below(path, key));
                keys
            },
        }
    }
}

/// Arguments have one first entry under a key.
proof fn lemma_one_first(fields: Seq<(String, AnyType)>, key: Seq<char>, i: int, j: int)
    requires
        is_first(fields, key, i),
        is_first(fields, key, j),
    ensures
        i == j,
{
    if i < j {
        assert(fields[i].0@ != key);
    }
    if j < i {
        assert(fields[j].0@ != key);
    }
}

/// What arguments give below a key is what the value under it gives.
proof fn lemma_given(arguments: Seq<(String, AnyType)>, keys: Seq<Seq<char>>)
    requires
        keys.len() > 0,
    ensures
        is_given(arguments, keys) <==> match field_from(arguments, keys[0], 0) {
            None => false,
            Some(AnyType::Object(inner)) => keys.len() == 1 || is_given(inner@, keys.skip(1)),
            Some(_) => keys.len() == 1,
        },
{
    lemma_field(arguments, keys[0], 0);
    if let Some(value) = field_from(arguments, keys[0], 0) {
        let i = choose|i: int| #[trigger] is_first(arguments, keys[0], i) && arguments[i].1 == value;
        if is_given(arguments, keys) {
            let j = choose|j: int|
                #[trigger] is_first(arguments, keys[0], j) && (keys.len() == 1 || (
                arguments[j].1 matches AnyType::Object(inner) && is_given(inner@, keys.skip(1))));
            lemma_one_first(arguments, keys[0], i, j);
        }
        assert(is_first(arguments, keys[0], i));
    }
}

/// Every parameter that the arguments do not give is missing.
pub proof fn lemma_missing(
    schema: Vec<(String, AnyType)>,
    arguments: Seq<(String, AnyType)>,
    prefix: Seq<char>,
    n: int,
    keys: Seq<Seq<char>>,
) -> (told: Seq<char>)
    requires
        0 <= n <= schema@.len(),
        leads_to_parameter(schema@.take(n), keys),
        !is_given(arguments, keys),
    ensures
        missing_paths(schema, arguments, prefix, n).contains(told),
        all_named(keys) ==> told == dotted(prefix, keys),
    decreases schema, n,
{
    let first = schema@.take(n);
    let i = choose|i: int|
        0 <= i < first.len() && (#[trigger] first[i]).0@ == keys[0] && match first[i].1 {
            AnyType::Object(inner) => keys.len() > 1 && leads_to_parameter(inner@, keys.skip(1)),
            _ => keys.len() == 1,
        };
    assert(first[i] == schema@[i]);
    let whole = missing_paths(schema, arguments, prefix, n);
    let before = missing_paths(schema, arguments, prefix, n - 1);
    if i < n - 1 {
        let less = schema@.take(n - 1);
        assert(less[i] == schema@[i]);
        assert(leads_to_parameter(less, keys));
        let told = lemma_missing(schema, arguments, prefix, n - 1, keys);
        let k = choose|k: int| 0 <= k < before.len() && before[k] == told;
        assert(whole[k] == told);
        told
    } else {
        let key = schema@[i].0@;
        let path = path_of(prefix, key);
        let rest = keys.skip(1);
        assert(keys =~= seq![key] + rest);
        lemma_dotted(prefix, key, rest);
        lemma_given(arguments, keys);
        match schema@[i].1 {
            AnyType::Object(wanted) => {
                assert(decreases_to!(schema => schema@));
                assert(decreases_to!(schema@ => schema@[i]));
                assert(decreases_to!(schema@[i] => schema@[i].1));
                assert(decreases_to!(schema@[i].1 => (schema@[i].1)->Object_0));
                assert(wanted@.take(wanted@.len() as int) =~= wanted@);
                let (told, added) = match field_from(arguments, key, 0) {
                    Some(AnyType::Object(given)) => (
                        lemma_missing(wanted, given@, path, wanted@.len() as int, rest),
                        missing_paths(wanted, given@, path, wanted@.len() as int),
                    ),
                    _ => {
                        lemma_required(wanted, path, wanted@.len() as int, rest);
                        (
                            joined(seq![path] + rest, "."@),
                            required_below(wanted, path, wanted@.len() as int),
                        )
                    },
                };
                assert(whole == before + added);
                let k = choose|k: int| 0 <= k < added.len() && added[k] == told;
                assert(whole[before.len() + k] == told);
                if all_named(keys) {
                    assert(keys[0].len() > 0);
                    assert(path.len() > 0);
                    assert forall|k: int| 0 <= k < rest.len() implies (#[trigger] rest[k]).len()
                        > 0 by {
                        assert(keys[k + 1].len() > 0);
                    }
                }
                told
            },
            _ => {
                assert(rest =~= Seq::<Seq<char>>::empty());
                assert(seq![path] + rest =~= seq![path]);
                lemma_join_one(path);
                assert(whole == before + seq![path]);
                assert(whole[before.len() as int] == path);
                path
            },
        }
    }
}

/// Whatever is missing is a parameter that the arguments do not give.
pub proof fn lemma_missing_leads(
    schema: Vec<(String, AnyType)>,
    arguments: Seq<(String, AnyType)>,
    prefix: Seq<char>,
    n: int,
    told: Seq<char>,
) -> (keys: Seq<Seq<char>>)
    requires
        0 <= n <= schema@.len(),
        missing_paths(schema, arguments, prefix, n).contains(told),
    ensures
        leads_to_parameter(schema@.take(n), keys),
        !is_given(arguments, keys),
        all_named(keys) ==> told == dotted(prefix, keys),
    decreases schema, n,
{
    let whole = missing_paths(schema, arguments, prefix, n);
    let before = missing_paths(schema, arguments, prefix, n - 1);
    let first = schema@.take(n);
    let k = choose|k: int| 0 <= k < whole.len() && whole[k] == told;
    if k < before.len() {
        assert(before[k] == told);
        let keys = lemma_missing_leads(schema, arguments, prefix, n - 1, told);
        let less = schema@.take(n - 1);
        let i = choose|i: int|
            0 <= i < less.len() && (#[trigger] less[i]).0@ == keys[0] && match less[i].1 {
                AnyType::Object(inner) => keys.len() > 1 && leads_to_parameter(
                    inner@,
                    keys.skip(1),
                ),
                _ => keys.len() == 1,
            };
        assert(first[i] == less[i]);
        keys
    } else {
        let i = n - 1;
        assert(first[i] == schema@[i]);
        let key = schema@[i].0@;
        let path = path_of(prefix, key);
        match schema@[i].1 {
            AnyType::Object(wanted) => {
                assert(decreases_to!(schema => schema@));
                assert(decreases_to!(schema@ => schema@[i]));
                assert(decreases_to!(schema@[i] => schema@[i].1));
                assert(decreases_to!(schema@[i].1 => (schema@[i].1)->Object_0));
                assert(wanted@.take(wanted@.len() as int) =~= wanted@);
                let rest = match field_from(arguments, key, 0) {
                    Some(AnyType::Object(given)) => {
                        let added = missing_paths(wanted, given@, path, wanted@.len() as int);
                        assert(whole == before + added);
                        assert(added[k - before.len()] == told);
                        lemma_missing_leads(wanted, given@, path, wanted@.len() as int, told)
                    },
                    _ => {
                        let added = required_below(wanted, path, wanted@.len() as int);
                        assert(whole == before + added);
                        assert(added[k - before.len()] == told);
                        lemma_required_leads(wanted, path, wanted@.len() as int, told)
                    },
                };
                let keys = seq![key] + rest;
                assert(keys.skip(1) =~= rest);
                lemma_dotted(prefix, key, rest);
                lemma_given(arguments, keys);
                if all_named(keys) {
                    assert(keys[0].len() > 0);
                    assert forall|j: int| 0 <= j < rest.len() implies (#[trigger] rest[j]).len()
                        > 0 by {
                        assert(keys[j + 1].len() > 0);
                    }
                }
                keys
            },
            _ => {
                let none = Seq::<Seq<char>>::empty();
                let keys = seq![key] + none;
                lemma_dotted(prefix, key, none);
                assert(seq![path] + none =~= seq![path]);
                lemma_join_one(path);
                lemma_given(arguments, keys);
                keys
            },
        }
    }
}

/// A path is reported as missing exactly where it leads to a parameter of the
/// schema and the arguments hold no value there, at every depth. (Keys that are
/// blank are reported too, though not under their dotted path.)
pub proof fn exactly_what_is_not_given_is_missing(
    schema: Vec<(String, AnyType)>,
    arguments: Vec<(String, AnyType)>,
    prefix: &str,
    r: Vec<String>,
    keys: Seq<Seq<char>>,
    told: Seq<char>,
)
    requires
        call_ensures(validate_parameters, (&schema, &arguments, prefix), r),
    ensures
        leads_to_parameter(schema@, keys) && !is_given(arguments@, keys) && all_named(keys)
            ==> texts(r@).contains(dotted(prefix@, keys)),
        texts(r@).contains(told) ==> exists|found: Seq<Seq<char>>|
            #[trigger] leads_to_parameter(schema@, found) && !is_given(arguments@, found) && (
            all_named(found) ==> told == dotted(prefix@, found)),
{
    let n = schema@.len() as int;
    assert(schema@.take(n) =~= schema@);
    if leads_to_parameter(schema@, keys) && !is_given(arguments@, keys) {
        let _ = lemma_missing(schema, arguments@, prefix@, n, keys);
    }
    if texts(r@).contains(told) {
        let found = lemma_missing_leads(schema, arguments@, prefix@, n, told);
        assert(leads_to_parameter(schema@, found));
    }
}

/// Nothing is missing exactly when every parameter of the schema is given.
pub proof fn nothing_is_missing_when_everything_is_given(
    schema: Vec<(String, AnyType)>,
    arguments: Vec<(String, AnyType)>,
    prefix: &str,
    r: Vec<String>,
)
    requires
        call_ensures(validate_parameters, (&schema, &arguments, prefix), r),
    ensures
        r@.len() == 0 <==> forall|keys: Seq<Seq<char>>| #[trigger]
            leads_to_parameter(schema@, keys) ==> is_given(arguments@, keys),
{
    let n = schema@.len() as int;
    assert(schema@.take(n) =~= schema@);
    let list = texts(r@);
    assert(list.len() == r@.len());
    if r@.len() == 0 {
        assert forall|keys: Seq<Seq<char>>| #[trigger]
            leads_to_parameter(schema@, keys) implies is_given(arguments@, keys) by {
            if !is_given(arguments@, keys) {
                let told = lemma_missing(schema, arguments@, prefix@, n, keys);
                assert(list.contains(told));
            }
        }
    } else {
        assert(list.contains(list[0]));
        let found = lemma_missing_leads(schema, arguments@, prefix@, n, list[0]);
        assert(leads_to_parameter(schema@, found) && !is_given(arguments@, found));
    }
}

/// Collecting the required paths of a schema value keeps what was collected before
/// and adds the value's own path where it is a parameter, and the path of every
/// parameter below it where it is an object.
pub proof fn every_parameter_below_is_required(
    value: AnyType,
    path: &str,
    missing: &mut Vec<String>,
    keys: Seq<Seq<char>>,
)
    requires
        call_ensures(collect_all_required_paths, (&value, path, missing), ()),
    ensures
        texts(old(missing)@).len() <= texts(final(missing)@).len(),
        texts(old(missing)@) == texts(final(missing)@).take(texts(old(missing)@).len() as int),
        match value {
            AnyType::Object(fields) => leads_to_parameter(fields@, keys) ==> texts(
                final(missing)@,
            ).contains(joined(seq![path@] + keys, "."@)),
            _ => texts(final(missing)@) == texts(old(missing)@).push(path@),
        },
{
    let before = texts(old(missing)@);
    let added = required_paths(value, path@);
    let after = texts(final(missing)@);
    assert(after.take(before.len() as int) =~= before);
    match value {
        AnyType::Object(fields) => {
            if leads_to_parameter(fields@, keys) {
                let n = fields@.len() as int;
                assert(fields@.take(n) =~= fields@);
                lemma_required(fields, path@, n, keys);
                let told = joined(seq![path@] + keys, "."@);
                let k = choose|k: int| 0 <= k < added.len() && added[k] == told;
                assert(after[before.len() + k] == told);
            }
        },
        _ => {
            assert(after =~= before.push(path@));
        },
    }
}

} // verus!

//! The files that a new node starts with.
use crate::archive::NODE_CONFIG_FILE;
use crate::paths::{join_path, joined_path};
use crate::text::{
    ends_with, from_range, has_prefix, has_suffix, starts_with, texts, to_chars,
};
use vstd::prelude::*;
use vstd::string::*;

verus! {

/// What the `Cargo.toml` of a Rust node is made from.
#[derive(Clone, Copy, Debug)]
pub struct RustCargoToml<'a> {
    pub node_name: &'a str,
    pub pepygen_path: &'a str,
    pub pepylib_path: &'a str,
}

/// What the `pyproject.toml` of a Python node is made from.
#[derive(Clone, Copy, Debug)]
pub struct PythonPyprojectToml<'a> {
    pub node_name: &'a str,
    pub pepygen_path: &'a str,
    pub pepylib_path: &'a str,
    pub python_min_version: &'a str,
    pub python_max_version: &'a str,
}

/// What the declaration of a Rust node is made from.
#[derive(Clone, Copy, Debug)]
pub struct RustPeppyJson5<'a> {
    pub node_name: &'a str,
    pub with_container: bool,
}

/// What the declaration of a Python node is made from.
#[derive(Clone, Copy, Debug)]
pub struct PythonPeppyJson5<'a> {
    pub node_name: &'a str,
    pub with_container: bool,
}

/// What the image definition of a Rust node is made from.
#[derive(Clone, Copy, Debug)]
pub struct ApptainerRustDef<'a> {
    pub node_name: &'a str,
    pub tag: &'a str,
    pub base_image: &'a str,
}

/// What the image definition of a Python node is made from.
#[derive(Clone, Copy, Debug)]
pub struct ApptainerPythonDef<'a> {
    pub node_name: &'a str,
    pub tag: &'a str,
    pub base_image: &'a str,
}

/// What a file of a new node holds.
pub enum InitContent<'a> {
    RustCargo(RustCargoToml<'a>),
    RustConfig(RustPeppyJson5<'a>),
    RustImage(ApptainerRustDef<'a>),
    PythonProject(PythonPyprojectToml<'a>),
    PythonConfig(PythonPeppyJson5<'a>),
    PythonImage(ApptainerPythonDef<'a>),
    /// This text as it is.
    Text(&'static str),
    /// The embedded file at this path, as it is.
    Embedded(&'a str),
}

/// A file of a new node.
pub struct InitFile<'a> {
    pub path: String,
    pub content: InitContent<'a>,
}

/// What all new nodes take over from their surroundings.
#[derive(Clone, Copy, Debug)]
pub struct InitSettings<'a> {
    pub pepygen_path: &'a str,
    pub pepylib_path: &'a str,
    pub python_min_version: &'a str,
    pub python_max_version: &'a str,
    pub rust_base_image: &'a str,
    pub python_base_image: &'a str,
}

/// Where the embedded files of a new Rust node are. A new Python node has none.
pub const RUST_TEMPLATES: &'static str = "node_init/rust";

/// The program that a Python node starts with.
pub const PYTHON_MAIN: &'static str = "
from peppygen import NodeBuilder, NodeRunner
from peppygen.parameters import Parameters

def setup(params: Parameters, node_runner: NodeRunner):
    pass

def main():
    NodeBuilder().run(setup)

if __name__ == \"__main__\":
    main()
";

/// The path that an embedded file is copied to, where its own begins with the
/// prefix and a slash.
pub open spec fn static_target(
    prefix: Seq<char>,
    file_path: Seq<char>,
    dest_dir: Seq<char>,
) -> Option<Seq<char>> {
    let start = if has_suffix(prefix, "/"@) {
        prefix
    } else {
        prefix + "/"@
    };
    if has_prefix(file_path, start) {
        Some(joined_path(dest_dir, file_path.skip(start.len() as int)))
    } else {
        None
    }
}

/// The path that an embedded file is copied to; none where it is not below the
/// prefix.
pub fn static_file_target(prefix: &str, file_path: &str, dest_dir: &str) -> (r: Option<String>)
    ensures
        match r {
            Some(path) => static_target(prefix@, file_path@, dest_dir@) == Some(path@),
            None => static_target(prefix@, file_path@, dest_dir@) is None,
        },
{
    let mut start: String = prefix.to_owned();
    if !ends_with(prefix, "/") {
        start.append("/");
    }
    if !starts_with(file_path, start.as_str()) {
        return None;
    }
    let chars = to_chars(file_path);
    let at: usize = to_chars(start.as_str()).len();
    proof {
        assert(file_path@.skip(at as int) =~= chars@.subrange(at as int, chars@.len() as int));
    }
    let relative = from_range(&chars, at, chars.len());
    Some(join_path(dest_dir, relative.as_str()))
}

/// Whether a file has this path and holds this.
pub open spec fn is_file(file: InitFile, path: Seq<char>, content: InitContent) -> bool {
    file.path@ == path && file.content == content
}

/// The copies that the first `n` embedded files make: the path of each copy, and
/// that of the file.
pub open spec fn copies(
    prefix: Seq<char>,
    embedded: Seq<Seq<char>>,
    dest_dir: Seq<char>,
    n: int,
) -> Seq<(Seq<char>, Seq<char>)>
    decreases n,
{
    if n <= 0 || n > embedded.len() {
        Seq::empty()
    } else {
        let before = copies(prefix, embedded, dest_dir, n - 1);
        match static_target(prefix, embedded[n - 1], dest_dir) {
            Some(path) => before.push((path, embedded[n - 1])),
            None => before,
        }
    }
}

/// Whether a file is this copy.
pub open spec fn is_copy(file: InitFile, copy: (Seq<char>, Seq<char>)) -> bool {
    file.path@ == copy.0 && (file.content matches InitContent::Embedded(from) && from@ == copy.1)
}

/// The copies of all embedded files below a prefix, which keep their places below
/// it.
pub fn copy_embedded_static_files<'a>(
    prefix: &str,
    embedded: &'a Vec<String>,
    dest_dir: &str,
) -> (r: Vec<InitFile<'a>>)
    ensures
        ({
            let all = copies(prefix@, texts(embedded@), dest_dir@, embedded@.len() as int);
            r@.len() == all.len() && forall|k: int|
                0 <= k < all.len() ==> is_copy(#[trigger] r@[k], all[k])
        }),
{
    let mut files: Vec<InitFile<'a>> = Vec::new();
    let ghost paths = texts(embedded@);
    let mut i: usize = 0;
    while i < embedded.len()
        invariant
            i <= embedded@.len(),
            paths == texts(embedded@),
            files@.len() == copies(prefix@, paths, dest_dir@, i as int).len(),
            forall|k: int|
                0 <= k < files@.len() ==> is_copy(
                    #[trigger] files@[k],
                    copies(prefix@, paths, dest_dir@, i as int)[k],
                ),
        decreases embedded.len() - i,
    {
        let from = embedded[i].as_str();
        proof {
            assert(paths[i as int] == from@);
        }
        if let Some(path) = static_file_target(prefix, from, dest_dir) {
            files.push(InitFile { path, content: InitContent::Embedded(from) });
        }
        i += 1;
    }
    files
}

/// The files of a new Rust node: copies of the embedded ones, and after them
/// those that are made for it.
pub fn apply_rust_templates<'a>(
    node_name: &'a str,
    node_dir: &str,
    with_container: bool,
    settings: InitSettings<'a>,
    embedded: &'a Vec<String>,
) -> (r: Vec<InitFile<'a>>)
    ensures
        ({
            let all = copies(
                RUST_TEMPLATES@,
                texts(embedded@),
                node_dir@,
                embedded@.len() as int,
            );
            let n = all.len() as int;
            &&& r@.len() == n + (if with_container {
                3int
            } else {
                2int
            })
            &&& forall|k: int| 0 <= k < n ==> is_copy(#[trigger] r@[k], all[k])
            &&& is_file(
                r@[n],
                joined_path(node_dir@, "Cargo.toml"@),
                InitContent::RustCargo(
                    RustCargoToml {
                        node_name,
                        pepygen_path: settings.pepygen_path,
                        pepylib_path: settings.pepylib_path,
                    },
                ),
            )
            &&& is_file(
                r@[n + 1],
                joined_path(node_dir@, NODE_CONFIG_FILE@),
                InitContent::RustConfig(RustPeppyJson5 { node_name, with_container }),
            )
            &&& with_container ==> is_file(
                r@[n + 2],
                joined_path(node_dir@, "apptainer.def"@),
                InitContent::RustImage(
                    ApptainerRustDef {
                        node_name,
                        tag: "v1",
                        base_image: settings.rust_base_image,
                    },
                ),
            )
        }),
{
    let mut files: Vec<InitFile<'a>> = copy_embedded_static_files(
        RUST_TEMPLATES,
        embedded,
        node_dir,
    );
    files.push(
        InitFile {
            path: join_path(node_dir, "Cargo.toml"),
            content: InitContent::RustCargo(
                RustCargoToml {
                    node_name,
                    pepygen_path: settings.pepygen_path,
                    pepylib_path: settings.pepylib_path,
                },
            ),
        },
    );
    files.push(
        InitFile {
            path: join_path(node_dir, NODE_CONFIG_FILE),
            content: InitContent::RustConfig(RustPeppyJson5 { node_name, with_container }),
        },
    );
    if with_container {
        files.push(
            InitFile {
                path: join_path(node_dir, "apptainer.def"),
                content: InitContent::RustImage(
                    ApptainerRustDef {
                        node_name,
                        tag: "v1",
                        base_image: settings.rust_base_image,
                    },
                ),
            },
        );
    }
    files
}

/// The directory of a Python node's package.
pub open spec fn package_dir(node_dir: Seq<char>, node_name: Seq<char>) -> Seq<char> {
    joined_path(joined_path(node_dir, "src"@), node_name)
}

/// The files of a new Python node. None of them is a copy of an embedded one.
pub fn apply_python_templates<'a>(
    node_name: &'a str,
    node_dir: &str,
    with_container: bool,
    settings: InitSettings<'a>,
) -> (r: Vec<InitFile<'a>>)
    ensures
        r@.len() == (if with_container {
            5int
        } else {
            4int
        }),
        is_file(
            r@[0],
            joined_path(node_dir@, "pyproject.toml"@),
            InitContent::PythonProject(
                PythonPyprojectToml {
                    node_name,
                    pepygen_path: settings.pepygen_path,
                    pepylib_path: settings.pepylib_path,
                    python_min_version: settings.python_min_version,
                    python_max_version: settings.python_max_version,
                },
            ),
        ),
        is_file(
            r@[1],
            joined_path(node_dir@, NODE_CONFIG_FILE@),
            InitContent::PythonConfig(PythonPeppyJson5 { node_name, with_container }),
        ),
        is_file(
            r@[2],
            joined_path(package_dir(node_dir@, node_name@), "__init__.py"@),
            InitContent::Text(""),
        ),
        is_file(
            r@[3],
            joined_path(package_dir(node_dir@, node_name@), "__main__.py"@),
            InitContent::Text(PYTHON_MAIN),
        ),
        with_container ==> is_file(
            r@[4],
            joined_path(node_dir@, "apptainer.def"@),
            InitContent::PythonImage(
                ApptainerPythonDef { node_name, tag: "v1", base_image: settings.python_base_image },
            ),
        ),
{
    let mut files: Vec<InitFile<'a>> = Vec::new();
    files.push(
        InitFile {
            path: join_path(node_dir, "pyproject.toml"),
            content: InitContent::PythonProject(
                PythonPyprojectToml {
                    node_name,
                    pepygen_path: settings.pepygen_path,
                    pepylib_path: settings.pepylib_path,
                    python_min_version: settings.python_min_version,
                    python_max_version: settings.python_max_version,
                },
            ),
        },
    );
    files.push(
        InitFile {
            path: join_path(node_dir, NODE_CONFIG_FILE),
            content: InitContent::PythonConfig(PythonPeppyJson5 { node_name, with_container }),
        },
    );
    let package = join_path(join_path(node_dir, "src").as_str(), node_name);
    files.push(
        InitFile {
            path: join_path(package.as_str(), "__init__.py"),
            content: InitContent::Text(""),
        },
    );
    files.push(
        InitFile {
            path: join_path(package.as_str(), "__main__.py"),
            content: InitContent::Text(PYTHON_MAIN),
        },
    );
    if with_container {
        files.push(
            InitFile {
                path: join_path(node_dir, "apptainer.def"),
                content: InitContent::PythonImage(
                    ApptainerPythonDef {
                        node_name,
                        tag: "v1",
                        base_image: settings.python_base_image,
                    },
                ),
            },
        );
    }
    files
}

/// An embedded file is copied exactly where it lies below the prefix, and to the same
/// place below the directory.
pub proof fn a_copy_keeps_its_place(
    prefix: &str,
    file_path: &str,
    dest_dir: &str,
    r: Option<String>,
    place: Seq<char>,
)
    requires
        call_ensures(static_file_target, (prefix, file_path, dest_dir), r),
        prefix@.len() > 0 && prefix@.last() != '/',
    ensures
        file_path@ == prefix@ + seq!['/'] + place ==> (r matches Some(path) && path@ == joined_path(
            dest_dir@,
            place,
        )),
        r is Some ==> exists|rest: Seq<char>| file_path@ == #[trigger] (prefix@ + seq!['/'] + rest),
{
    reveal_strlit("/");
    assert("/"@ =~= seq!['/']);
    let end = prefix@.skip(prefix@.len() - 1);
    assert(end[0] == prefix@.last());
    assert(("/"@)[0] == '/');
    let start = prefix@ + "/"@;
    if file_path@ == prefix@ + seq!['/'] + place {
        assert(file_path@.take(start.len() as int) =~= start);
        assert(file_path@.skip(start.len() as int) =~= place);
    }
    if r is Some {
        let rest = file_path@.skip(start.len() as int);
        assert(file_path@ =~= prefix@ + seq!['/'] + rest);
    }
}

/// A new Rust node has its package, its declaration, and an image definition exactly
/// where it is to run in a container; all of them are made for its name.
pub proof fn a_new_rust_node_has_its_files<'a>(
    node_name: &'a str,
    node_dir: &str,
    with_container: bool,
    settings: InitSettings<'a>,
    embedded: &'a Vec<String>,
    r: Vec<InitFile<'a>>,
)
    requires
        call_ensures(
            apply_rust_templates,
            (node_name, node_dir, with_container, settings, embedded),
            r,
        ),
    ensures
        exists|k: int|
            0 <= k < r@.len() && (#[trigger] r@[k]).path@ == joined_path(node_dir@, "Cargo.toml"@)
                && (r@[k].content matches InitContent::RustCargo(made) && made.node_name
                == node_name),
        exists|k: int|
            0 <= k < r@.len() && (#[trigger] r@[k]).path@ == joined_path(
                node_dir@,
                "peppy.json5"@,
            ) && (r@[k].content matches InitContent::RustConfig(made) && made.node_name == node_name
                && made.with_container == with_container),
        (exists|k: int|
            0 <= k < r@.len() && ((#[trigger] r@[k]).content is RustImage)) <==> with_container,
{
    let all = copies(RUST_TEMPLATES@, texts(embedded@), node_dir@, embedded@.len() as int);
    let n = all.len() as int;
    let cargo = r@[n];
    let config = r@[n + 1];
    if with_container {
        let image = r@[n + 2];
    } else {
        assert forall|k: int| 0 <= k < r@.len() implies !((#[trigger] r@[k]).content is RustImage) by {
            if k < n {
                assert(is_copy(r@[k], all[k]));
            }
        }
    }
}

} // verus!

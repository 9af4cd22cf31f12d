//! Paths as sequences of names, and the rule that mirrors an input tree
//! under an output root.
//!
//! A path is kept as the list of its components rather than as text with
//! separators, so that nothing here depends on a platform's notation.

use vstd::prelude::*;
use vstd::string::*;

verus! {

/// Index of the last `'.'` of `name`, or `-1` where `name` holds none.
pub open spec fn last_dot(name: Seq<char>) -> int
    decreases name.len(),
{
    if name.len() == 0 {
        -1
    } else if name.last() == '.' {
        name.len() - 1
    } else {
        last_dot(name.drop_last())
    }
}

/// A name has an extension when its last dot is not its first character.
pub open spec fn has_extension(name: Seq<char>) -> bool {
    last_dot(name) > 0
}

/// The name without its extension; the whole name where it has none.
pub open spec fn stem_of(name: Seq<char>) -> Seq<char> {
    if has_extension(name) {
        name.subrange(0, last_dot(name))
    } else {
        name
    }
}

/// What follows the last dot of a name that has an extension.
pub open spec fn extension_of(name: Seq<char>) -> Option<Seq<char>> {
    if has_extension(name) {
        Some(name.subrange(last_dot(name) + 1, name.len() as int))
    } else {
        None
    }
}

/// `last_dot` is the position of a dot that no other dot follows.
pub proof fn lemma_last_dot_is_last(name: Seq<char>)
    ensures
        -1 <= last_dot(name) < name.len(),
        last_dot(name) >= 0 ==> name[last_dot(name)] == '.',
        forall|j: int| last_dot(name) < j < name.len() ==> name[j] != '.',
    decreases name.len(),
{
    if name.len() > 0 && name.last() != '.' {
        let front = name.drop_last();
        lemma_last_dot_is_last(front);
        assert forall|j: int| last_dot(name) < j < name.len() implies name[j] != '.' by {
            if j < front.len() {
                assert(front[j] == name[j]);
            }
        }
    }
}

/// A dot that no other dot follows is at `last_dot`.
pub proof fn lemma_last_dot_unique(name: Seq<char>, k: int)
    requires
        0 <= k < name.len(),
        name[k] == '.',
        forall|j: int| k < j < name.len() ==> name[j] != '.',
    ensures
        last_dot(name) == k,
    decreases name.len(),
{
    if k < name.len() - 1 {
        lemma_last_dot_unique(name.drop_last(), k);
    }
}

/// A name without dots has no last dot.
pub proof fn lemma_last_dot_absent(name: Seq<char>)
    requires
        forall|j: int| 0 <= j < name.len() ==> name[j] != '.',
    ensures
        last_dot(name) == -1,
    decreases name.len(),
{
    if name.len() > 0 {
        lemma_last_dot_absent(name.drop_last());
    }
}

/// Finds the last dot of a name.
fn find_last_dot(name: &str) -> (r: Option<usize>)
    ensures
        r matches Some(k) ==> last_dot(name@) == k && k < name@.len(),
        r is None ==> last_dot(name@) == -1,
{
    let n = name.unicode_len();
    let mut i = n;
    while i > 0
        invariant
            i <= n,
            n == name@.len(),
            forall|j: int| i <= j < n ==> name@[j] != '.',
        decreases i,
    {
        i = i - 1;
        if name.get_char(i) == '.' {
            proof {
                lemma_last_dot_unique(name@, i as int);
            }
            return Some(i);
        }
    }
    proof {
        lemma_last_dot_absent(name@);
    }
    None
}

/// The stem of a file name: the part before its last dot, or the whole name
/// where it has no dot or only a leading one.
pub fn file_stem(name: &str) -> (stem: String)
    ensures
        stem@ == stem_of(name@),
{
    match find_last_dot(name) {
        Some(k) if k > 0 => String::from_str(name.substring_char(0, k)),
        _ => String::from_str(name),
    }
}

/// The extension of a file name: the part after its last dot, unless the
/// name has no dot or only a leading one.
pub fn extension(name: &str) -> (ext: Option<String>)
    ensures
        ext.deep_view() == extension_of(name@),
{
    match find_last_dot(name) {
        Some(k) if k > 0 => {
            let n = name.unicode_len();
            Some(String::from_str(name.substring_char(k + 1, n)))
        },
        _ => None,
    }
}

/// A path: the names of its components, outermost first.
#[derive(Debug, PartialEq, Eq, Hash)]
pub struct TreePath {
    parts: Vec<String>,
}

impl View for TreePath {
    type V = Seq<Seq<char>>;

    closed spec fn view(&self) -> Seq<Seq<char>> {
        self.parts.deep_view()
    }
}

impl DeepView for TreePath {
    type V = Seq<Seq<char>>;

    open spec fn deep_view(&self) -> Seq<Seq<char>> {
        self@
    }
}

/// Copies a list of names.
fn copy_names(names: &Vec<String>, from: usize) -> (copy: Vec<String>)
    requires
        from <= names.len(),
    ensures
        copy.deep_view() == names.deep_view().skip(from as int),
{
    let mut copy: Vec<String> = Vec::new();
    let mut i = from;
    while i < names.len()
        invariant
            from <= i <= names.len(),
            copy.deep_view() == names.deep_view().subrange(from as int, i as int),
        decreases names.len() - i,
    {
        let name = names[i].clone();
        assert(name@ == names.deep_view()[i as int]);
        let ghost before = copy.deep_view();
        copy.push(name);
        assert(copy.deep_view() =~= before.push(name@));
        assert(copy.deep_view() =~= names.deep_view().subrange(from as int, i + 1));
        i = i + 1;
    }
    assert(copy.deep_view() =~= names.deep_view().skip(from as int));
    copy
}

impl Clone for TreePath {
    /// A copy of the path.
    fn clone(&self) -> (copy: TreePath)
        ensures
            copy@ == self@,
    {
        TreePath { parts: copy_names(&self.parts, 0) }
    }
}

impl TreePath {
    /// The path with the given components.
    pub fn new(parts: Vec<String>) -> (path: TreePath)
        ensures
            path@ == parts.deep_view(),
    {
        TreePath { parts }
    }

    /// The components of the path.
    pub fn parts(&self) -> (parts: &Vec<String>)
        ensures
            parts.deep_view() == self@,
    {
        &self.parts
    }

    /// The number of components.
    pub fn len(&self) -> (n: usize)
        ensures
            n == self@.len(),
    {
        self.parts.len()
    }


    /// The last component, if the path has any.
    pub fn file_name(&self) -> (name: Option<&String>)
        ensures
            name is Some <==> self@.len() > 0,
            name matches Some(n) ==> n@ == self@.last(),
    {
        let n = self.parts.len();
        if n == 0 {
            None
        } else {
            Some(&self.parts[n - 1])
        }
    }

    /// Whether `root` is this path or one of its ancestors.
    pub fn starts_with(&self, root: &TreePath) -> (r: bool)
        ensures
            r == root@.is_prefix_of(self@),
    {
        if root.parts.len() > self.parts.len() {
            return false;
        }
        let mut i: usize = 0;
        while i < root.parts.len()
            invariant
                i <= root.parts.len() <= self.parts.len(),
                forall|j: int| 0 <= j < i ==> root@[j] == self@[j],
            decreases root.parts.len() - i,
        {
            if root.parts[i] != self.parts[i] {
                assert(root@[i as int] != self@.subrange(0, root@.len() as int)[i as int]);
                return false;
            }
            i = i + 1;
        }
        assert(root@ =~= self@.subrange(0, root@.len() as int));
        true
    }

    /// The path that leads from `root` to this path, where `root` is this
    /// path or one of its ancestors.
    pub fn relative_to(&self, root: &TreePath) -> (rel: Option<TreePath>)
        ensures
            rel is Some <==> root@.is_prefix_of(self@),
            rel matches Some(r) ==> r@ == self@.skip(root@.len() as int),
    {
        if self.starts_with(root) {
            Some(TreePath { parts: copy_names(&self.parts, root.parts.len()) })
        } else {
            None
        }
    }

    /// This path followed by the components of `rel`.
    pub fn join(&self, rel: &TreePath) -> (joined: TreePath)
        ensures
            joined@ == self@ + rel@,
    {
        let mut parts = copy_names(&self.parts, 0);
        let mut i: usize = 0;
        while i < rel.parts.len()
            invariant
                i <= rel.parts.len(),
                parts.deep_view() == self@ + rel@.take(i as int),
            decreases rel.parts.len() - i,
        {
            let name = rel.parts[i].clone();
            assert(name@ == rel@[i as int]);
            let ghost before = parts.deep_view();
            parts.push(name);
            assert(parts.deep_view() =~= before.push(name@));
            assert(parts.deep_view() =~= self@ + rel@.take(i + 1));
            i = i + 1;
        }
        assert(rel@.take(rel@.len() as int) =~= rel@);
        TreePath { parts }
    }

    /// This path followed by one more component.
    pub fn child(&self, name: String) -> (path: TreePath)
        ensures
            path@ == self@.push(name@),
    {
        let mut parts = copy_names(&self.parts, 0);
        assert(parts.deep_view() =~= self@);
        let ghost before = parts.deep_view();
        parts.push(name);
        assert(parts.deep_view() =~= before.push(name@));
        TreePath { parts }
    }
}

/// Why no output location could be derived for an input file.
#[derive(Clone, Copy, Debug, PartialEq, Eq, Structural)]
pub enum PathError {
    /// The file does not lie under the input root.
    OutsideRoot,
    /// The path has no components, hence no file name.
    NoFileName,
}

/// Where the results for one input file go.
#[derive(Debug, PartialEq, Eq)]
pub struct OutputPlan {
    /// The directory handed to the remote service: the output root followed
    /// by the file's path relative to the input root.
    pub output_dir: TreePath,
    /// The path whose existence tells that the file was done before: the
    /// file's stem inside `output_dir`.
    pub marker: TreePath,
}

/// The fault, if any, that keeps `file` from being mirrored.
pub open spec fn plan_fault(input_root: Seq<Seq<char>>, file: Seq<Seq<char>>) -> Option<PathError> {
    if !input_root.is_prefix_of(file) {
        Some(PathError::OutsideRoot)
    } else if file.len() == 0 {
        Some(PathError::NoFileName)
    } else {
        None
    }
}

/// The output root followed by the path that leads from the input root to
/// the file.
pub open spec fn mirrored_dir(
    input_root: Seq<Seq<char>>,
    output_root: Seq<Seq<char>>,
    file: Seq<Seq<char>>,
) -> Seq<Seq<char>> {
    output_root + file.skip(input_root.len() as int)
}

/// The stem of the file's name inside its mirrored directory.
pub open spec fn marker_of(
    input_root: Seq<Seq<char>>,
    output_root: Seq<Seq<char>>,
    file: Seq<Seq<char>>,
) -> Seq<Seq<char>> {
    mirrored_dir(input_root, output_root, file).push(stem_of(file.last()))
}

/// Derives the output directory and the marker path of an input file.
pub fn plan_output(input_root: &TreePath, output_root: &TreePath, file: &TreePath) -> (r: Result<
    OutputPlan,
    PathError,
>)
    ensures
        match r {
            Ok(plan) => {
                &&& plan_fault(input_root@, file@) is None
                &&& plan.output_dir@ == mirrored_dir(input_root@, output_root@, file@)
                &&& plan.marker@ == marker_of(input_root@, output_root@, file@)
            },
            Err(fault) => plan_fault(input_root@, file@) == Some(fault),
        },
{
    let relative = match file.relative_to(input_root) {
        Some(relative) => relative,
        None => {
            return Err(PathError::OutsideRoot);
        },
    };
    let stem = match file.file_name() {
        Some(name) => file_stem(name.as_str()),
        None => {
            return Err(PathError::NoFileName);
        },
    };
    let output_dir = output_root.join(&relative);
    let marker = output_dir.child(stem);
    Ok(OutputPlan { output_dir, marker })
}

} // verus!

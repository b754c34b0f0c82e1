//! The paths of test files and of the files that hold their expected output.

use crate::text;
use vstd::prelude::*;

verus! {

/// The value of a [`TestPath`].
pub struct TestPathView {
    /// Everything that is shown before the file name, the last separator included.
    pub prefix: Seq<char>,
    /// The directory that holds the file, as it is shown.
    pub parent: Seq<char>,
    /// The last component.
    pub file_name: Seq<char>,
}

/// `at` is the position of the dot between a file name's stem and its extension: the last dot,
/// unless the name begins with it. The name `..` has no extension.
pub open spec fn splits_extension(file_name: Seq<char>, at: int) -> bool {
    &&& 0 < at < file_name.len()
    &&& file_name[at] == '.'
    &&& forall|k: int| at < k < file_name.len() ==> file_name[k] != '.'
    &&& file_name != seq!['.', '.']
}

/// What a file name says before its extension; all of it, where it has none.
pub open spec fn stem(file_name: Seq<char>) -> Seq<char> {
    if exists|at: int| splits_extension(file_name, at) {
        file_name.take(choose|at: int| splits_extension(file_name, at))
    } else {
        file_name
    }
}

/// What a file name says after the dot that begins its extension.
pub open spec fn extension(file_name: Seq<char>) -> Option<Seq<char>> {
    if exists|at: int| splits_extension(file_name, at) {
        Some(file_name.skip(1 + choose|at: int| splits_extension(file_name, at)))
    } else {
        None
    }
}

/// A file name with another extension in place of its own. The empty extension takes it away.
pub open spec fn renamed(file_name: Seq<char>, new_extension: Seq<char>) -> Seq<char> {
    if new_extension.len() == 0 {
        stem(file_name)
    } else {
        stem(file_name).push('.') + new_extension
    }
}

impl TestPathView {
    /// A file has a name.
    pub open spec fn wf(self) -> bool {
        self.file_name.len() > 0
    }

    /// The whole path, as it is shown.
    pub open spec fn display(self) -> Seq<char> {
        self.prefix + self.file_name
    }

    /// The same path with another extension.
    pub open spec fn with_extension(self, new_extension: Seq<char>) -> TestPathView {
        TestPathView { file_name: renamed(self.file_name, new_extension), ..self }
    }
}

/// The path of a file: the directory that it is in, and its name there.
#[derive(Debug)]
pub struct TestPath {
    prefix: String,
    parent: String,
    file_name: String,
}

impl View for TestPath {
    type V = TestPathView;

    closed spec fn view(&self) -> TestPathView {
        TestPathView { prefix: self.prefix@, parent: self.parent@, file_name: self.file_name@ }
    }
}

impl Clone for TestPath {
    fn clone(&self) -> (copy: Self)
        ensures
            copy@ == self@,
    {
        proof {
            use_type_invariant(self);
        }
        TestPath {
            prefix: self.prefix.clone(),
            parent: self.parent.clone(),
            file_name: self.file_name.clone(),
        }
    }
}

impl TestPath {
    /// Every path names a file.
    #[verifier::type_invariant]
    pub open spec fn inv(self) -> bool {
        self@.wf()
    }

    /// The path of the file `file_name` in the directory `parent`. `prefix` is what is shown before
    /// the file name.
    pub fn new(prefix: String, parent: String, file_name: String) -> (path: TestPath)
        requires
            file_name@.len() > 0,
        ensures
            path@ == (TestPathView { prefix: prefix@, parent: parent@, file_name: file_name@ }),
            path@.wf(),
    {
        TestPath { prefix, parent, file_name }
    }

    /// The last component.
    pub fn file_name(&self) -> (name: &str)
        ensures
            name@ == self@.file_name,
            self@.wf(),
    {
        proof {
            use_type_invariant(self);
        }
        self.file_name.as_str()
    }

    /// The directory that holds the file, as it is shown.
    pub fn parent(&self) -> (parent: &str)
        ensures
            parent@ == self@.parent,
    {
        self.parent.as_str()
    }

    /// The whole path, as it is shown.
    pub fn display(&self) -> (shown: String)
        ensures
            shown@ == self@.display(),
    {
        let mut shown = self.prefix.clone();
        shown.append(self.file_name.as_str());
        shown
    }

    /// The position of the dot that begins the extension.
    fn extension_dot(name: &Vec<char>) -> (dot: Option<usize>)
        ensures
            match dot {
                Some(at) => splits_extension(name@, at as int),
                None => forall|at: int| !splits_extension(name@, at),
            },
    {
        if name.len() == 2 && name[0] == '.' && name[1] == '.' {
            assert(name@ == seq!['.', '.']);
            return None;
        }
        assert(name@ != seq!['.', '.']);
        let mut i: usize = name.len();
        while i > 1
            invariant
                i <= name.len(),
                name@ != seq!['.', '.'],
                forall|k: int| i <= k < name.len() ==> name@[k] != '.',
            decreases i,
        {
            i -= 1;
            if name[i] == '.' {
                return Some(i);
            }
        }
        None
    }

    /// The extension of the file name.
    pub fn extension(&self) -> (found: Option<String>)
        ensures
            match found {
                Some(ext) => extension(self@.file_name) == Some(ext@),
                None => extension(self@.file_name) is None,
            },
    {
        let name = text::characters(self.file_name.as_str());
        match Self::extension_dot(&name) {
            Some(at) => {
                let found = text::slice(&name, at + 1, name.len());
                assert(found@ == name@.skip(at + 1));
                Some(found)
            },
            None => None,
        }
    }

    /// The same path with another extension.
    pub fn with_extension(&self, new_extension: &str) -> (path: TestPath)
        ensures
            path@ == self@.with_extension(new_extension@),
            path@.wf(),
    {
        proof {
            use_type_invariant(self);
        }
        let name = text::characters(self.file_name.as_str());
        let mut file_name = match Self::extension_dot(&name) {
            Some(at) => text::slice(&name, 0, at),
            None => self.file_name.clone(),
        };
        assert(file_name@ == stem(self@.file_name));
        if !new_extension.is_empty() {
            file_name.push('.');
            file_name.append(new_extension);
        }
        TestPath { prefix: self.prefix.clone(), parent: self.parent.clone(), file_name }
    }
}

/// A text without dots.
pub open spec fn dotless(text: Seq<char>) -> bool {
    forall|i: int| 0 <= i < text.len() ==> text[i] != '.'
}

proof fn lemma_stem_is_not_empty(file_name: Seq<char>)
    requires
        file_name.len() > 0,
    ensures
        stem(file_name).len() > 0,
{
}

/// A file with a new extension has the part of it behind the last dot for an extension.
pub proof fn law_extension_after_renaming(
    file_name: Seq<char>,
    head: Seq<char>,
    tail: Seq<char>,
)
    requires
        file_name.len() > 0,
        head.len() == 0 || head.last() == '.',
        tail.len() > 0,
        dotless(tail),
    ensures
        extension(renamed(file_name, head + tail)) == Some(tail),
{
    lemma_stem_is_not_empty(file_name);
    let name = renamed(file_name, head + tail);
    let at = name.len() - tail.len() - 1;
    assert(name[at] == '.');
    assert forall|k: int| at < k < name.len() implies name[k] != '.' by {
        assert(name[k] == tail[k - at - 1]);
    }
    assert(name.len() > 2);
    assert(splits_extension(name, at));
    let found = choose|a: int| splits_extension(name, a);
    assert(found == at) by {
        if found < at {
            assert(name[at] != '.');
        } else if at < found {
            assert(name[found] != '.');
        }
    }
    assert(name.skip(at + 1) =~= tail);
}

/// Different extensions make different files of one file.
pub proof fn law_renaming_is_injective(file_name: Seq<char>, a: Seq<char>, b: Seq<char>)
    requires
        renamed(file_name, a) == renamed(file_name, b),
    ensures
        a == b,
{
    let dotted = stem(file_name).push('.');
    if a.len() > 0 && b.len() > 0 {
        assert(a =~= (dotted + a).skip(dotted.len() as int));
        assert(b =~= (dotted + b).skip(dotted.len() as int));
    } else {
        assert(a =~= b);
    }
}

proof fn lemma_split(file_name: Seq<char>, at: int)
    requires
        splits_extension(file_name, at),
    ensures
        stem(file_name) == file_name.take(at),
        extension(file_name) == Some(file_name.skip(at + 1)),
{
    let found = choose|a: int| splits_extension(file_name, a);
    assert(splits_extension(file_name, found));
    assert(found == at) by {
        if found < at {
            assert(file_name[at] != '.');
        } else if at < found {
            assert(file_name[found] != '.');
        }
    }
}

/// What a file name says behind its last dot is its extension, unless the name begins with that dot.
/// Another extension takes the place of that one alone.
pub proof fn law_names_with_an_extension(
    name: Seq<char>,
    ending: Seq<char>,
    new_extension: Seq<char>,
)
    requires
        name.len() > 0,
        dotless(ending),
        name + seq!['.'] + ending != seq!['.', '.'],
        new_extension.len() > 0,
    ensures
        extension(name + seq!['.'] + ending) == Some(ending),
        renamed(name + seq!['.'] + ending, new_extension) == name + seq!['.'] + new_extension,
        renamed(name + seq!['.'] + ending, Seq::empty()) == name,
{
    let file_name = name + seq!['.'] + ending;
    let at = name.len() as int;
    assert forall|k: int| at < k < file_name.len() implies file_name[k] != '.' by {
        assert(file_name[k] == ending[k - at - 1]);
    }
    lemma_split(file_name, at);
    assert(file_name.take(at) =~= name);
    assert(file_name.skip(at + 1) =~= ending);
    assert(name.push('.') + new_extension =~= name + seq!['.'] + new_extension);
}

/// A file name without a dot, or with one at its beginning alone, has no extension. An extension is
/// put behind it.
pub proof fn law_names_without_an_extension(name: Seq<char>, new_extension: Seq<char>)
    requires
        dotless(name) || (name.len() > 0 && name[0] == '.' && dotless(name.skip(1))),
        new_extension.len() > 0,
    ensures
        extension(name) is None,
        renamed(name, new_extension) == name + seq!['.'] + new_extension,
{
    assert forall|at: int| !splits_extension(name, at) by {
        if 0 < at < name.len() && !dotless(name) {
            assert(name.skip(1)[at - 1] == name[at]);
        }
    }
    assert(name.push('.') + new_extension =~= name + seq!['.'] + new_extension);
}

/// A path is shown as what is before the file name and the file name, and another extension changes
/// the file name alone.
pub proof fn law_paths_are_shown_whole(path: TestPathView, new_extension: Seq<char>)
    ensures
        path.display() == path.prefix + path.file_name,
        path.with_extension(new_extension).prefix == path.prefix,
        path.with_extension(new_extension).parent == path.parent,
        path.with_extension(new_extension).file_name == renamed(path.file_name, new_extension),
{
}

} // verus!

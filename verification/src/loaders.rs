//! Content loaders map an entry to a single byte string, deterministically.
//!
//! The title, path and extension loaders are pure functions of the entry's
//! path and are implemented here. The text and exec loaders need file or
//! process input and output; the caller that owns that input and output loads
//! their content and hands it to the pipeline.

use vstd::prelude::*;
use vstd::string::StringExecFns;

verus! {

/// The byte value of an ASCII forward slash.
pub const SLASH: u8 = 47;

/// The byte value of an ASCII dot.
pub const NAME_DOT: u8 = 46;

/// One filesystem entry seen by the pipeline, identified by its path.
pub struct FileData {
    /// The full path of the entry, as bytes.
    pub path: Vec<u8>,
}

impl View for FileData {
    type V = Seq<u8>;

    open spec fn view(&self) -> Seq<u8> {
        self.path@
    }
}

impl FileData {
    /// Build an entry from its full path.
    pub fn new(path: Vec<u8>) -> (r: FileData)
        ensures
            r@ == path@,
    {
        FileData { path }
    }

    /// The full path of the entry.
    pub fn path(&self) -> (r: &Vec<u8>)
        ensures
            r@ == self@,
    {
        &self.path
    }
}

/// Whether the byte `b` occurs in `s`.
pub open spec fn spec_has_byte(s: Seq<u8>, b: u8) -> bool {
    exists|i: int| 0 <= i < s.len() && s[i] == b
}

/// The suffix of `s` after the last occurrence of `b`; all of `s` if `b`
/// does not occur.
pub open spec fn spec_after_last(s: Seq<u8>, b: u8) -> Seq<u8>
    decreases s.len(),
{
    if spec_has_byte(s, b) {
        spec_after_last(s.skip(1), b)
    } else {
        s
    }
}

/// The final path component: the suffix after the last slash.
pub open spec fn spec_title(path: Seq<u8>) -> Seq<u8> {
    spec_after_last(path, SLASH)
}

/// The extension: the part of the file name after its last dot, or empty if
/// the name has no dot.
pub open spec fn spec_ext(path: Seq<u8>) -> Seq<u8> {
    if spec_has_byte(spec_title(path), NAME_DOT) {
        spec_after_last(spec_title(path), NAME_DOT)
    } else {
        Seq::empty()
    }
}

/// After the last occurrence of `b` at index `i`, the suffix is `s.skip(i+1)`.
proof fn lemma_after_last_at(s: Seq<u8>, b: u8, i: int)
    requires
        0 <= i < s.len(),
        s[i] == b,
        forall|j: int| i < j < s.len() ==> s[j] != b,
    ensures
        spec_after_last(s, b) == s.skip(i + 1),
    decreases s.len(),
{
    assert(spec_has_byte(s, b));
    if i == 0 {
        assert forall|j: int| 0 <= j < s.skip(1).len() implies s.skip(1)[j] != b by {
            assert(s.skip(1)[j] == s[j + 1]);
        }
        assert(!spec_has_byte(s.skip(1), b));
        assert(spec_after_last(s.skip(1), b) == s.skip(1));
    } else {
        assert(s.skip(1)[i - 1] == b);
        assert(forall|j: int| i - 1 < j < s.skip(1).len() ==> s.skip(1)[j] != b);
        lemma_after_last_at(s.skip(1), b, i - 1);
        assert(s.skip(1).skip(i) =~= s.skip(i + 1));
    }
}

/// Find the last occurrence of `b` in `s`.
fn find_last(s: &Vec<u8>, b: u8) -> (r: Option<usize>)
    ensures
        s@.len() <= usize::MAX,
        match r {
            Some(i) => {
                &&& i < s@.len()
                &&& s@[i as int] == b
                &&& forall|j: int| i < j < s@.len() ==> s@[j] != b
            },
            None => !spec_has_byte(s@, b),
        },
{
    let mut k: usize = s.len();
    while k > 0
        invariant
            k <= s@.len(),
            s@.len() <= usize::MAX,
            forall|j: int| k <= j < s@.len() ==> s@[j] != b,
        decreases k,
    {
        k = k - 1;
        if s[k] == b {
            return Some(k);
        }
    }
    None
}

/// Copy the suffix of `s` that starts at `from`.
fn suffix_from(s: &Vec<u8>, from: usize) -> (r: Vec<u8>)
    requires
        from <= s@.len(),
    ensures
        r@ == s@.skip(from as int),
{
    let mut r: Vec<u8> = Vec::new();
    let mut i: usize = from;
    while i < s.len()
        invariant
            from <= i <= s@.len(),
            r@ =~= s@.subrange(from as int, i as int),
        decreases s.len() - i,
    {
        r.push(s[i]);
        assert(s@.subrange(from as int, i + 1 as int) =~= s@.subrange(from as int, i as int).push(
            s@[i as int],
        ));
        i = i + 1;
    }
    assert(s@.subrange(from as int, s@.len() as int) =~= s@.skip(from as int));
    r
}

/// The final path component of `path`, as the title loader produces it.
pub fn title_of(path: &Vec<u8>) -> (r: Vec<u8>)
    ensures
        r@ == spec_title(path@),
{
    match find_last(path, SLASH) {
        Some(i) => {
            proof {
                lemma_after_last_at(path@, SLASH, i as int);
            }
            suffix_from(path, i + 1)
        },
        None => {
            let r = suffix_from(path, 0);
            assert(path@.skip(0) =~= path@);
            r
        },
    }
}

/// The extension of `path`, as the extension loader produces it.
pub fn ext_of(path: &Vec<u8>) -> (r: Vec<u8>)
    ensures
        r@ == spec_ext(path@),
{
    let title = title_of(path);
    match find_last(&title, NAME_DOT) {
        Some(i) => {
            proof {
                lemma_after_last_at(title@, NAME_DOT, i as int);
            }
            suffix_from(&title, i + 1)
        },
        None => Vec::new(),
    }
}

/// A path as shown relative to a parent: empty for the parent itself, the
/// remainder after the parent and its separator for paths under it, and the
/// path unchanged for paths elsewhere.
pub open spec fn spec_path_rel(path: Seq<u8>, parent: Seq<u8>) -> Seq<u8> {
    if path == parent {
        Seq::empty()
    } else if path.len() >= parent.len() && path.take(parent.len() as int) == parent {
        let rest = path.skip(parent.len() as int);
        if rest.len() > 0 {
            rest.skip(1)
        } else {
            rest
        }
    } else {
        path
    }
}

/// Render a path relative to a parent, for display.
pub fn path_rel(path: &Vec<u8>, parent: &Vec<u8>) -> (r: Vec<u8>)
    ensures
        r@ == spec_path_rel(path@, parent@),
{
    if crate::bytes::bytes_eq(path, parent) {
        return Vec::new();
    }
    if path.len() >= parent.len() {
        let mut i: usize = 0;
        let mut is_prefix = true;
        proof {
            assert(path@.take(0) =~= parent@.take(0));
        }
        while i < parent.len()
            invariant
                i <= parent@.len() <= path@.len(),
                is_prefix == (path@.take(i as int) == parent@.take(i as int)),
            decreases parent@.len() - i,
        {
            let ghost pre = is_prefix;
            if path[i] != parent[i] {
                is_prefix = false;
            }
            proof {
                if pre && path@[i as int] == parent@[i as int] {
                    assert(path@.take(i + 1 as int) =~= path@.take(i as int).push(
                        path@[i as int],
                    ));
                    assert(parent@.take(i + 1 as int) =~= parent@.take(i as int).push(
                        parent@[i as int],
                    ));
                } else {
                    assert(path@.take(i + 1 as int) != parent@.take(i + 1 as int)) by {
                        if pre {
                            assert(path@.take(i + 1 as int)[i as int] == path@[i as int]);
                            assert(parent@.take(i + 1 as int)[i as int] == parent@[i as int]);
                        } else {
                            assert(path@.take(i as int) != parent@.take(i as int));
                            if path@.take(i + 1 as int) == parent@.take(i + 1 as int) {
                                assert(path@.take(i as int) =~= path@.take(i + 1 as int).take(
                                    i as int,
                                ));
                                assert(parent@.take(i as int) =~= parent@.take(i + 1 as int).take(
                                    i as int,
                                ));
                            }
                        }
                    }
                }
            }
            i = i + 1;
        }
        proof {
            assert(parent@.take(parent@.len() as int) =~= parent@);
        }
        if is_prefix {
            if path.len() > parent.len() {
                proof {
                    assert(path@.skip(parent@.len() as int).skip(1) =~= path@.skip(
                        (parent@.len() + 1) as int,
                    ));
                }
                return suffix_from(path, parent.len() + 1);
            } else {
                proof {
                    assert(path@.skip(parent@.len() as int) =~= Seq::<u8>::empty());
                }
                return Vec::new();
            }
        }
    }
    crate::bytes::copy_bytes(path)
}

/// The closed set of content extraction strategies. Exactly one is bound per
/// stage.
pub enum LoaderKind {
    /// The entry's final path component.
    Title,
    /// The entry's full path.
    Path,
    /// The part of the file name after its last dot.
    Ext,
    /// The entry's file content; needs file input, loaded by the caller.
    Text,
    /// The standard output of an external command run on the entry; needs
    /// process output, loaded by the caller.
    Exec(String),
}

/// The mathematical form of a loader kind: the exec command as a character
/// sequence.
pub enum LoaderV {
    /// The entry's final path component.
    Title,
    /// The entry's full path.
    Path,
    /// The part of the file name after its last dot.
    Ext,
    /// The entry's file content.
    Text,
    /// The standard output of the given command run on the entry.
    Exec(Seq<char>),
}

impl View for LoaderKind {
    type V = LoaderV;

    open spec fn view(&self) -> LoaderV {
        match self {
            LoaderKind::Title => LoaderV::Title,
            LoaderKind::Path => LoaderV::Path,
            LoaderKind::Ext => LoaderV::Ext,
            LoaderKind::Text => LoaderV::Text,
            LoaderKind::Exec(c) => LoaderV::Exec(c@),
        }
    }
}

impl LoaderKind {
    /// Whether this loader is a pure function of the entry's path.
    pub open spec fn is_pure(&self) -> bool {
        match self {
            LoaderKind::Title => true,
            LoaderKind::Path => true,
            LoaderKind::Ext => true,
            LoaderKind::Text => false,
            LoaderKind::Exec(_) => false,
        }
    }
}

/// What a pure loader extracts from an entry's path.
pub open spec fn spec_load_pure(kind: LoaderKind, path: Seq<u8>) -> Seq<u8>
    recommends
        kind.is_pure(),
{
    match kind {
        LoaderKind::Title => spec_title(path),
        LoaderKind::Ext => spec_ext(path),
        _ => path,
    }
}

/// Run a pure loader on an entry.
pub fn load_pure(kind: &LoaderKind, entry: &FileData) -> (r: Vec<u8>)
    requires
        kind.is_pure(),
    ensures
        r@ == spec_load_pure(*kind, entry@),
{
    match kind {
        LoaderKind::Title => title_of(&entry.path),
        LoaderKind::Ext => ext_of(&entry.path),
        _ => {
            let mut r: Vec<u8> = Vec::new();
            r.extend_from_slice(entry.path.as_slice());
            assert(r@ =~= entry@);
            r
        },
    }
}

/// The printable name of a loader kind.
pub open spec fn spec_loader_name(kind: LoaderKind) -> Seq<char> {
    match kind {
        LoaderKind::Title => "content-title"@,
        LoaderKind::Path => "content-path"@,
        LoaderKind::Ext => "content-ext"@,
        LoaderKind::Text => "content-text"@,
        LoaderKind::Exec(_) => "content-exec"@,
    }
}

/// The printable name of a loader kind.
pub fn loader_name(kind: &LoaderKind) -> (r: &'static str)
    ensures
        r@ == spec_loader_name(*kind),
{
    match kind {
        LoaderKind::Title => "content-title",
        LoaderKind::Path => "content-path",
        LoaderKind::Ext => "content-ext",
        LoaderKind::Text => "content-text",
        LoaderKind::Exec(_) => "content-exec",
    }
}

/// The loader kind named by an argument, for the loaders that take no value.
pub open spec fn spec_parse(arg: Seq<char>) -> Option<LoaderKind> {
    if arg == "content-path"@ {
        Some(LoaderKind::Path)
    } else if arg == "content-text"@ {
        Some(LoaderKind::Text)
    } else if arg == "content-title"@ {
        Some(LoaderKind::Title)
    } else if arg == "content-ext"@ {
        Some(LoaderKind::Ext)
    } else {
        None
    }
}

/// Map an argument name to the loader kind it names.
pub fn parse(arg: &String) -> (r: Option<LoaderKind>)
    ensures
        r == spec_parse(arg@),
{
    if arg.eq(&String::from_str("content-path")) {
        Some(LoaderKind::Path)
    } else if arg.eq(&String::from_str("content-text")) {
        Some(LoaderKind::Text)
    } else if arg.eq(&String::from_str("content-title")) {
        Some(LoaderKind::Title)
    } else if arg.eq(&String::from_str("content-ext")) {
        Some(LoaderKind::Ext)
    } else {
        None
    }
}

/// Extracts the final path component of an entry.
pub struct ContentTitle {}

/// Extracts the full path of an entry.
pub struct ContentPath {}

/// Extracts the file-name extension of an entry.
pub struct ContentExt {}

/// Extracts the file content of an entry; the content itself is loaded by
/// the caller that owns the file input.
pub struct ContentText {}

/// Runs an external command on an entry and extracts its standard output;
/// the output itself is loaded by the caller that owns the process.
pub struct ContentExec {
    /// The space-split command line to run.
    pub command: String,
}

impl ContentTitle {
    /// Build a title loader.
    pub fn new() -> (r: ContentTitle) {
        ContentTitle {  }
    }

    /// Load the entry's final path component.
    pub fn load_content(&self, entry: &FileData) -> (r: Vec<u8>)
        ensures
            r@ == spec_title(entry@),
    {
        title_of(&entry.path)
    }

    /// The argument name of this loader.
    pub fn get_name(&self) -> (r: &'static str)
        ensures
            r@ == spec_loader_name(LoaderKind::Title),
    {
        "content-title"
    }
}

impl ContentPath {
    /// Build a path loader.
    pub fn new() -> (r: ContentPath) {
        ContentPath {  }
    }

    /// Load the entry's full path.
    pub fn load_content(&self, entry: &FileData) -> (r: Vec<u8>)
        ensures
            r@ == entry@,
    {
        let mut r: Vec<u8> = Vec::new();
        r.extend_from_slice(entry.path.as_slice());
        assert(r@ =~= entry@);
        r
    }

    /// The argument name of this loader.
    pub fn get_name(&self) -> (r: &'static str)
        ensures
            r@ == spec_loader_name(LoaderKind::Path),
    {
        "content-path"
    }
}

impl ContentExt {
    /// Build an extension loader.
    pub fn new() -> (r: ContentExt) {
        ContentExt {  }
    }

    /// Load the entry's file-name extension.
    pub fn load_content(&self, entry: &FileData) -> (r: Vec<u8>)
        ensures
            r@ == spec_ext(entry@),
    {
        ext_of(&entry.path)
    }

    /// The argument name of this loader.
    pub fn get_name(&self) -> (r: &'static str)
        ensures
            r@ == spec_loader_name(LoaderKind::Ext),
    {
        "content-ext"
    }
}

impl ContentText {
    /// Build a text loader.
    pub fn new() -> (r: ContentText) {
        ContentText {  }
    }

    /// The argument name of this loader.
    pub fn get_name(&self) -> (r: &'static str)
        ensures
            r@ == spec_loader_name(LoaderKind::Text),
    {
        "content-text"
    }
}

impl ContentExec {
    /// Build an exec loader for the given space-split command line.
    pub fn new(command: &str) -> (r: ContentExec)
        ensures
            r.command@ == command@,
    {
        ContentExec { command: String::from_str(command) }
    }

    /// The argument name of this loader.
    pub fn get_name(&self) -> (r: &'static str)
        ensures
            r@ == spec_loader_name(LoaderKind::Exec(self.command)),
    {
        "content-exec"
    }
}

} // verus!

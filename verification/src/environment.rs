//! Where the application keeps its files: the directories under its prefix, the plugin
//! directories, and how old flat data files move into the two-level layout.
use crate::text::{ascii_lower, chars_of, owned, push_char, push_str, str_eq, string_from_chars};
use vstd::prelude::*;

verus! {

/// `a` joined with `b` as '/'-separated paths: `b` alone when it is absolute, else `a`, a
/// '/' unless `a` is empty or ends with one, then `b`.
pub open spec fn join_path(a: Seq<char>, b: Seq<char>) -> Seq<char> {
    if b.len() > 0 && b[0] == '/' {
        b
    } else if a.len() == 0 || a.last() == '/' {
        a + b
    } else {
        a + seq!['/'] + b
    }
}

/// Joins two '/'-separated paths.
pub fn join(a: &str, b: &str) -> (r: String)
    ensures
        r@ == join_path(a@, b@),
{
    let ca = chars_of(a);
    let cb = chars_of(b);
    if cb.len() > 0 && cb[0] == '/' {
        return owned(b);
    }
    let mut out = owned(a);
    if !(ca.len() == 0 || ca[ca.len() - 1] == '/') {
        push_char(&mut out, '/');
    }
    push_str(&mut out, b);
    out
}

/// The application's directories: everything lives under a prefix, except the plugins
/// installed for every user, under the platform's state directory.
pub struct Environment {
    prefix: String,
    state_dir: String,
}

/// The abstract environment.
pub ghost struct EnvironmentView {
    pub prefix: Seq<char>,
    pub state_dir: Seq<char>,
}

impl View for Environment {
    type V = EnvironmentView;

    closed spec fn view(&self) -> EnvironmentView {
        EnvironmentView { prefix: self.prefix@, state_dir: self.state_dir@ }
    }
}

impl Environment {
    /// The environment under `prefix`, with the platform's state directory `state_dir`.
    pub fn new(prefix: &str, state_dir: &str) -> (r: Self)
        ensures
            r@ == (EnvironmentView { prefix: prefix@, state_dir: state_dir@ }),
    {
        Environment { prefix: owned(prefix), state_dir: owned(state_dir) }
    }

    /// The prefix.
    pub fn prefix(&self) -> (r: &str)
        ensures
            r@ == self@.prefix,
    {
        self.prefix.as_str()
    }

    /// The data directory: "data" under the prefix.
    pub fn data_dir(&self) -> (r: String)
        ensures
            r@ == join_path(self@.prefix, "data"@),
    {
        join(self.prefix.as_str(), "data")
    }

    /// The cache directory: "cache" under the prefix.
    pub fn cache_dir(&self) -> (r: String)
        ensures
            r@ == join_path(self@.prefix, "cache"@),
    {
        join(self.prefix.as_str(), "cache")
    }

    /// The directory for temporary files: "tmp" under the cache directory.
    pub fn tmp_dir(&self) -> (r: String)
        ensures
            r@ == join_path(join_path(self@.prefix, "cache"@), "tmp"@),
    {
        let cache = self.cache_dir();
        join(cache.as_str(), "tmp")
    }

    /// The metadata database: "metadata.db" in the data directory.
    pub fn metadata_file_path(&self) -> (r: String)
        ensures
            r@ == join_path(join_path(self@.prefix, "data"@), "metadata.db"@),
    {
        let data = self.data_dir();
        join(data.as_str(), "metadata.db")
    }

    /// The plugins installed for every user: "plugins" under the state directory.
    pub fn global_plugin_dir(&self) -> (r: String)
        ensures
            r@ == join_path(self@.state_dir, "plugins"@),
    {
        join(self.state_dir.as_str(), "plugins")
    }

    /// The plugins installed under the prefix: "plugins" under it.
    pub fn local_plugin_dir(&self) -> (r: String)
        ensures
            r@ == join_path(self@.prefix, "plugins"@),
    {
        join(self.prefix.as_str(), "plugins")
    }
}

/// `s` ends with `suffix`.
pub open spec fn ends_with(s: Seq<char>, suffix: Seq<char>) -> bool {
    suffix.len() <= s.len() && s.subrange(s.len() - suffix.len(), s.len() as int) == suffix
}

/// A plugin module is a file whose path ends with ".wasm", in any case.
pub fn is_wasm_module_path(path: &str) -> (r: bool)
    ensures
        r == ends_with(ascii_lower(path@), ".wasm"@),
{
    let cs = chars_of(path);
    let lower = crate::text::ascii_lowercase_chars(cs.as_slice());
    let suffix = chars_of(".wasm");
    if suffix.len() > lower.len() {
        return false;
    }
    let n: usize = lower.len();
    let start = n - suffix.len();
    let mut i: usize = 0;
    while i < suffix.len()
        invariant
            0 <= i <= suffix@.len(),
            start + suffix@.len() == lower@.len(),
            lower@.len() == n,
            lower@ == ascii_lower(path@),
            suffix@ == ".wasm"@,
            forall|j: int| 0 <= j < i ==> lower@[start + j] == suffix@[j],
        decreases suffix@.len() - i,
    {
        if lower[start + i] != suffix[i] {
            assert(lower@.subrange(start as int, lower@.len() as int)[i as int] != suffix@[i as int]);
            return false;
        }
        i = i + 1;
    }
    assert(lower@.subrange(start as int, lower@.len() as int) =~= suffix@);
    true
}

/// `s` starts with `prefix`.
pub open spec fn starts_with(s: Seq<char>, prefix: Seq<char>) -> bool {
    prefix.len() <= s.len() && s.subrange(0, prefix.len() as int) == prefix
}

/// The data directory's own files, which stay where they are: the saved application state
/// and the metadata database files.
pub open spec fn is_kept_data_file(name: Seq<char>) -> bool {
    name == "artchiver.ron"@ || starts_with(name, "metadata"@)
}

/// Every character is ASCII.
pub open spec fn all_ascii(s: Seq<char>) -> bool {
    forall|i: int| 0 <= i < s.len() ==> (s[i] as u32) < 128
}

/// Where a flat data file moves: `None` for the data directory's own files; otherwise its
/// directory "ab/cd" and its new path "ab/cd/rest" from its name "abcdrest".
pub open spec fn spec_migration_target(name: Seq<char>) -> Option<(Seq<char>, Seq<char>)> {
    if is_kept_data_file(name) {
        None
    } else {
        let dir = name.subrange(0, 2) + seq!['/'] + name.subrange(2, 4);
        Some((dir, dir + seq!['/'] + name.subrange(4, name.len() as int)))
    }
}

/// Where the flat data file named `name` moves in the two-level layout. The files that move
/// are named by their digest, so their names are ASCII and longer than five characters.
pub fn migration_target(name: &str) -> (r: Option<(String, String)>)
    requires
        !is_kept_data_file(name@) ==> name@.len() > 5 && all_ascii(name@),
    ensures
        match r {
            None => spec_migration_target(name@) is None,
            Some((d, f)) => spec_migration_target(name@) == Some((d@, f@)),
        },
{
    let cs = chars_of(name);
    let meta = chars_of("metadata");
    let mut is_meta = meta.len() <= cs.len();
    let mut i: usize = 0;
    while is_meta && i < meta.len()
        invariant
            0 <= i <= meta@.len(),
            is_meta ==> meta@.len() <= cs@.len(),
            is_meta ==> forall|j: int| 0 <= j < i ==> cs@[j] == meta@[j],
            !is_meta ==> !starts_with(cs@, meta@),
        decreases meta@.len() - i,
    {
        if cs[i] != meta[i] {
            assert(cs@.subrange(0, meta@.len() as int)[i as int] != meta@[i as int]);
            is_meta = false;
        }
        i = i + 1;
    }
    if is_meta {
        assert(cs@.subrange(0, meta@.len() as int) =~= meta@);
    }
    if str_eq(name, "artchiver.ron") || is_meta {
        return None;
    }
    let mut dir: Vec<char> = Vec::new();
    dir.push(cs[0]);
    dir.push(cs[1]);
    dir.push('/');
    dir.push(cs[2]);
    dir.push(cs[3]);
    let mut file: Vec<char> = Vec::new();
    let mut k: usize = 0;
    while k < dir.len()
        invariant
            0 <= k <= dir@.len(),
            file@ == dir@.subrange(0, k as int),
        decreases dir@.len() - k,
    {
        file.push(dir[k]);
        assert(file@ =~= dir@.subrange(0, k + 1));
        k = k + 1;
    }
    file.push('/');
    let mut j: usize = 4;
    while j < cs.len()
        invariant
            4 <= j <= cs@.len(),
            file@ == dir@ + seq!['/'] + cs@.subrange(4, j as int),
        decreases cs@.len() - j,
    {
        file.push(cs[j]);
        assert(file@ =~= dir@ + seq!['/'] + cs@.subrange(4, j + 1));
        j = j + 1;
    }
    assert(dir@ =~= cs@.subrange(0, 2) + seq!['/'] + cs@.subrange(2, 4));
    Some((string_from_chars(dir.as_slice()), string_from_chars(file.as_slice())))
}

} // verus!

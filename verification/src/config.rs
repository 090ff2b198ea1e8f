//! The server's configuration, built from the values of its TOML file.
//!
//! The driver reads the file and decodes the TOML into the `Toml*` records; building the
//! configuration from them (compiling the glob patterns of the asset directories) happens
//! here.
use vstd::prelude::*;

verus! {

#[verifier::external_type_specification]
#[verifier::external_body]
pub struct ExGlob(globset::Glob);

#[verifier::external_type_specification]
#[verifier::external_body]
pub struct ExGlobError(globset::Error);

/// Whether `pattern` is a glob pattern that `globset::Glob::new` accepts.
pub uninterp spec fn glob_pattern_valid(pattern: Seq<char>) -> bool;

/// Compiles a glob pattern with `globset::Glob::new` (default options). Whether it succeeds
/// depends on the pattern alone.
#[verifier::external_body]
fn glob_new(pattern: &str) -> (r: Result<globset::Glob, globset::Error>)
    ensures
        r is Ok == glob_pattern_valid(pattern@),
{
    globset::Glob::new(pattern)
}

/// Longest glob pattern (in characters) that a path filter compiles. Beyond about 2^31 bytes
/// of literal text, `globset::GlobSet::new` panics in the aho-corasick automaton it builds.
pub const MAX_PATTERN_LEN: usize = 0x1000_0000;

/// Whether `globset::GlobSet::new` builds a set from the glob that `globset::Glob::new` makes
/// of `pattern`: the pattern parses and its regex compiles within the crate's size limits.
pub uninterp spec fn glob_compiles(pattern: Seq<char>) -> bool;

/// Whether the glob set built from the single pattern `pattern` matches the path `path`.
pub uninterp spec fn glob_matches(pattern: Seq<char>, path: Seq<char>) -> bool;

/// Builds a glob set of the single pattern `pattern` with `globset::Glob::new` and
/// `globset::GlobSet::new`, and reports whether that succeeded. Success depends on the pattern
/// alone; it implies that `Glob::new` accepts the pattern.
#[verifier::external_body]
fn glob_set_check(pattern: &str) -> (r: Result<(), globset::Error>)
    requires
        pattern@.len() < MAX_PATTERN_LEN,
    ensures
        r is Ok == glob_compiles(pattern@),
        r is Ok ==> glob_pattern_valid(pattern@),
{
    let glob = globset::Glob::new(pattern)?;
    globset::GlobSet::new([glob])?;
    Ok(())
}

/// Tests `path` with `GlobSet::is_match` against the glob set of the single pattern `pattern`,
/// built as [`glob_set_check`] builds it (which succeeds for such a pattern).
#[verifier::external_body]
fn glob_is_match(pattern: &str, path: &str) -> (b: bool)
    requires
        pattern@.len() < MAX_PATTERN_LEN,
        glob_compiles(pattern@),
    ensures
        b == glob_matches(pattern@, path@),
{
    let set = match globset::Glob::new(pattern) {
        Ok(glob) => globset::GlobSet::new([glob]),
        Err(err) => Err(err),
    };
    match set {
        Ok(set) => set.is_match(path),
        Err(_) => false,
    }
}

/// Whether some pattern of `patterns` matches `path`.
pub open spec fn any_pattern_matches(patterns: Seq<Seq<char>>, path: Seq<char>) -> bool {
    exists|i: int| 0 <= i < patterns.len() && #[trigger] glob_matches(patterns[i], path)
}

/// Whether the walk leaves `path` out: it matches an exclusion pattern and no inclusion
/// pattern (an included path is kept though excluded).
pub open spec fn path_skipped_spec(excl: Seq<Seq<char>>, incl: Seq<Seq<char>>, p: Seq<char>) -> bool {
    any_pattern_matches(excl, p) && !any_pattern_matches(incl, p)
}

/// The texts of a list of strings.
pub open spec fn texts(v: Seq<String>) -> Seq<Seq<char>> {
    v.map_values(|s: String| s@)
}

/// Whether every pattern of `patterns` is shorter than [`MAX_PATTERN_LEN`].
pub open spec fn patterns_short(patterns: Seq<Seq<char>>) -> bool {
    forall|i: int| 0 <= i < patterns.len() ==> (#[trigger] patterns[i]).len() < MAX_PATTERN_LEN
}

/// Whether every pattern of `patterns` compiles into a glob set.
pub open spec fn patterns_compile(patterns: Seq<Seq<char>>) -> bool {
    forall|i: int| 0 <= i < patterns.len() ==> #[trigger] glob_compiles(patterns[i])
}

/// The exclusion patterns of the asset directory an asset root is configured as (none when it
/// is not configured).
pub open spec fn dir_excluded(dir: Option<&AssetDir>) -> Seq<Seq<char>> {
    match dir {
        Some(d) => texts(d.exclude_patterns@),
        None => Seq::empty(),
    }
}

/// The inclusion patterns of the asset directory an asset root is configured as (none when it
/// is not configured).
pub open spec fn dir_included(dir: Option<&AssetDir>) -> Seq<Seq<char>> {
    match dir {
        Some(d) => texts(d.include_patterns@),
        None => Seq::empty(),
    }
}

/// The path filter of the walk of one asset root: its exclusion and inclusion patterns, each
/// of which compiles into a glob set.
pub struct PathFilter {
    left_out: Vec<String>,
    taken_in: Vec<String>,
}

/// Checks, in order, that every pattern compiles into a glob set; the first error otherwise.
fn check_patterns(patterns: &Vec<String>) -> (r: Result<(), globset::Error>)
    requires
        patterns_short(texts(patterns@)),
    ensures
        r is Ok == patterns_compile(texts(patterns@)),
{
    let mut i: usize = 0;
    while i < patterns.len()
        invariant
            i <= patterns@.len(),
            patterns_short(texts(patterns@)),
            forall|k: int| 0 <= k < i ==> #[trigger] glob_compiles(texts(patterns@)[k]),
        decreases patterns@.len() - i,
    {
        assert(texts(patterns@)[i as int].len() < MAX_PATTERN_LEN);
        match glob_set_check(patterns[i].as_str()) {
            Ok(()) => {},
            Err(err) => {
                assert(!glob_compiles(texts(patterns@)[i as int]));
                return Err(err);
            },
        }
        i = i + 1;
    }
    Ok(())
}

/// Whether some pattern of `patterns` matches `path`.
fn any_matches(patterns: &Vec<String>, path: &str) -> (b: bool)
    requires
        patterns_short(texts(patterns@)),
        patterns_compile(texts(patterns@)),
    ensures
        b == any_pattern_matches(texts(patterns@), path@),
{
    let mut i: usize = 0;
    while i < patterns.len()
        invariant
            i <= patterns@.len(),
            patterns_short(texts(patterns@)),
            patterns_compile(texts(patterns@)),
            forall|k: int| 0 <= k < i ==> !#[trigger] glob_matches(texts(patterns@)[k], path@),
        decreases patterns@.len() - i,
    {
        assert(texts(patterns@)[i as int].len() < MAX_PATTERN_LEN);
        assert(glob_compiles(texts(patterns@)[i as int]));
        if glob_is_match(patterns[i].as_str(), path) {
            assert(glob_matches(texts(patterns@)[i as int], path@));
            return true;
        }
        i = i + 1;
    }
    false
}

impl PathFilter {
    #[verifier::type_invariant]
    spec fn compiles(self) -> bool {
        &&& patterns_short(texts(self.left_out@))
        &&& patterns_short(texts(self.taken_in@))
        &&& patterns_compile(texts(self.left_out@))
        &&& patterns_compile(texts(self.taken_in@))
    }

    /// The exclusion patterns.
    pub closed spec fn excluded(self) -> Seq<Seq<char>> {
        texts(self.left_out@)
    }

    /// The inclusion patterns.
    pub closed spec fn included(self) -> Seq<Seq<char>> {
        texts(self.taken_in@)
    }

    /// The filter of the walk of an asset root configured as `dir` (none when the root is not
    /// in the configuration: then nothing is left out). Fails, and indexing does not start,
    /// when a pattern does not compile into a glob set.
    pub fn new(dir: Option<&AssetDir>) -> (r: Result<PathFilter, globset::Error>)
        requires
            patterns_short(dir_excluded(dir)),
            patterns_short(dir_included(dir)),
        ensures
            r is Ok == (patterns_compile(dir_excluded(dir)) && patterns_compile(dir_included(dir))),
            r matches Ok(f) ==> f.excluded() == dir_excluded(dir) && f.included() == dir_included(dir),
    {
        let (left_out, taken_in) = match dir {
            Some(d) => (d.exclude_patterns.clone(), d.include_patterns.clone()),
            None => (Vec::new(), Vec::new()),
        };
        proof {
            assert(texts(left_out@) =~= dir_excluded(dir));
            assert(texts(taken_in@) =~= dir_included(dir));
        }
        check_patterns(&left_out)?;
        check_patterns(&taken_in)?;
        Ok(PathFilter { left_out, taken_in })
    }

    /// Whether the walk leaves `path` out: it matches an exclusion pattern and no inclusion
    /// pattern.
    pub fn is_skipped(&self, path: &str) -> (b: bool)
        ensures
            b == path_skipped_spec(self.excluded(), self.included(), path@),
    {
        proof {
            use_type_invariant(self);
        }
        any_matches(&self.left_out, path) && !any_matches(&self.taken_in, path)
    }
}

/// The components of the path `path`, as `camino::Utf8Path::components` gives them.
pub uninterp spec fn path_components_of(path: Seq<char>) -> Seq<Seq<char>>;

/// Splits a path into its components with `camino::Utf8Path::components`, each as a string.
#[verifier::external_body]
pub(crate) fn path_components(path: &str) -> (r: Vec<String>)
    ensures
        texts(r@) == path_components_of(path@),
{
    camino::Utf8Path::new(path).components().map(|c| c.as_str().to_owned()).collect()
}

/// Whether two lists of strings hold the same texts.
fn same_texts(a: &Vec<String>, b: &Vec<String>) -> (r: bool)
    ensures
        r == (texts(a@) == texts(b@)),
{
    if a.len() != b.len() {
        assert(texts(a@).len() != texts(b@).len());
        return false;
    }
    let mut i: usize = 0;
    while i < a.len()
        invariant
            a@.len() == b@.len(),
            i <= a@.len(),
            forall|k: int| 0 <= k < i ==> #[trigger] texts(a@)[k] == texts(b@)[k],
        decreases a@.len() - i,
    {
        if !crate::text::str_eq(a[i].as_str(), b[i].as_str()) {
            assert(texts(a@)[i as int] != texts(b@)[i as int]);
            return false;
        }
        i = i + 1;
    }
    assert(texts(a@) =~= texts(b@));
    true
}

/// An asset directory as the configuration file lists it.
#[derive(Debug, Clone, PartialEq, Eq)]
pub struct TomlAssetDir {
    pub path: String,
    pub name: Option<String>,
    pub exclude_patterns: Option<Vec<String>>,
    pub include_patterns: Option<Vec<String>>,
}

/// The data directory as the configuration file gives it.
#[derive(Debug, Clone, PartialEq, Eq)]
pub struct TomlDataDir {
    pub path: String,
    pub name: Option<String>,
    pub db_path: Option<String>,
}

/// Paths of external tools as the configuration file gives them.
#[derive(Debug, Clone, PartialEq, Eq)]
pub struct TomlBinPaths {
    pub ffmpeg: Option<String>,
    pub ffprobe: Option<String>,
    pub exiftool: Option<String>,
    pub gpac: Option<String>,
}

/// The configuration file's values.
#[derive(Debug, Clone, PartialEq, Eq)]
pub struct TomlConfig {
    pub asset_dirs: Vec<TomlAssetDir>,
    pub data_dir: TomlDataDir,
    pub bin_paths: Option<TomlBinPaths>,
    pub address: Option<String>,
    pub port: Option<u16>,
}

/// A directory that assets are indexed from, with the patterns of paths left out and taken
/// back in, and the globs compiled from them (glob `k` from pattern `k`).
#[derive(Clone)]
pub struct AssetDir {
    pub path: String,
    pub name: Option<String>,
    pub exclude_patterns: Vec<String>,
    pub include_patterns: Vec<String>,
    pub exclude_globs: Vec<globset::Glob>,
    pub include_globs: Vec<globset::Glob>,
}

impl AssetDir {
    /// Whether every exclusion and inclusion pattern is a valid glob.
    pub open spec fn patterns_valid(&self) -> bool {
        &&& forall|i: int|
            0 <= i < self.exclude_patterns@.len() ==> glob_pattern_valid(
                (#[trigger] self.exclude_patterns@[i])@,
            )
        &&& forall|i: int|
            0 <= i < self.include_patterns@.len() ==> glob_pattern_valid(
                (#[trigger] self.include_patterns@[i])@,
            )
    }

    /// The directory as built from the file's entry `d`: path, name, the pattern lists (empty
    /// where the file has none), one compiled glob per pattern, every pattern valid.
    pub open spec fn built_from(&self, d: TomlAssetDir) -> bool {
        &&& self.path == d.path
        &&& self.name == d.name
        &&& self.exclude_patterns@ == patterns_of(d.exclude_patterns)
        &&& self.include_patterns@ == patterns_of(d.include_patterns)
        &&& self.exclude_globs@.len() == self.exclude_patterns@.len()
        &&& self.include_globs@.len() == self.include_patterns@.len()
        &&& self.patterns_valid()
    }
}

/// The directory where derived files and the database are kept.
#[derive(Debug, Clone, PartialEq, Eq)]
pub struct DataDir {
    pub path: String,
    pub name: Option<String>,
    pub db_path: Option<String>,
}

/// Paths of external tools, each with arguments that go before all others.
#[derive(Debug, Clone, PartialEq, Eq)]
pub struct BinPaths {
    pub ffmpeg: Option<(String, Vec<String>)>,
    pub ffprobe: Option<(String, Vec<String>)>,
    pub exiftool: Option<(String, Vec<String>)>,
    pub gpac: Option<(String, Vec<String>)>,
}

/// The server's configuration.
#[derive(Clone)]
pub struct Config {
    pub asset_dirs: Vec<AssetDir>,
    pub data_dir: DataDir,
    pub bin_paths: BinPaths,
    pub address: Option<String>,
    pub port: Option<u16>,
}

/// Why the configuration could not be built.
#[derive(Debug, Clone, PartialEq, Eq)]
pub enum ConfigError {
    /// An exclusion pattern of the asset directory `dir` is not a valid glob.
    InvalidExcludePattern { pattern: String, dir: String },
    /// An inclusion pattern of the asset directory `dir` is not a valid glob.
    InvalidIncludePattern { pattern: String, dir: String },
}

/// Index of the first pattern of `patterns` that is not a valid glob, if any.
pub open spec fn first_invalid(patterns: Seq<String>) -> Option<int>
    decreases patterns.len(),
{
    if patterns.len() == 0 {
        None
    } else {
        match first_invalid(patterns.drop_last()) {
            Some(k) => Some(k),
            None => if glob_pattern_valid(patterns.last()@) {
                None
            } else {
                Some(patterns.len() - 1)
            },
        }
    }
}

/// The patterns of an optional list.
pub open spec fn patterns_of(p: Option<Vec<String>>) -> Seq<String> {
    match p {
        None => Seq::empty(),
        Some(v) => v@,
    }
}

/// Whether every pattern of an asset directory is a valid glob.
pub open spec fn asset_dir_valid(d: TomlAssetDir) -> bool {
    first_invalid(patterns_of(d.exclude_patterns)) is None && first_invalid(patterns_of(d.include_patterns)) is None
}

/// The error that building an asset directory gives: the first invalid exclusion pattern, else
/// the first invalid inclusion pattern.
pub open spec fn asset_dir_error(d: TomlAssetDir) -> (bool, Seq<char>) {
    match first_invalid(patterns_of(d.exclude_patterns)) {
        Some(k) => (true, patterns_of(d.exclude_patterns)[k]@),
        None => (false, patterns_of(d.include_patterns)[first_invalid(patterns_of(d.include_patterns))->0]@),
    }
}

/// The view of a configuration error: whether it is about an exclusion pattern, the pattern,
/// and the directory.
pub open spec fn config_error_view(e: ConfigError) -> (bool, Seq<char>, Seq<char>) {
    match e {
        ConfigError::InvalidExcludePattern { pattern, dir } => (true, pattern@, dir@),
        ConfigError::InvalidIncludePattern { pattern, dir } => (false, pattern@, dir@),
    }
}

/// Compiles the patterns of an optional list, in order; fails on the first invalid one,
/// returning its index.
fn compile_globs(patterns: &Option<Vec<String>>) -> (r: Result<Vec<globset::Glob>, usize>)
    ensures
        match r {
            Ok(globs) => first_invalid(patterns_of(*patterns)) is None && globs@.len()
                == patterns_of(*patterns).len(),
            Err(k) => first_invalid(patterns_of(*patterns)) == Some(k as int),
        },
{
    let mut globs: Vec<globset::Glob> = Vec::new();
    match patterns {
        None => {
            proof {
                assert(patterns_of(*patterns) =~= Seq::<String>::empty());
            }
            Ok(globs)
        },
        Some(list) => {
            let mut i: usize = 0;
            while i < list.len()
                invariant
                    patterns_of(*patterns) == list@,
                    i <= list@.len(),
                    globs@.len() == i,
                    first_invalid(list@.subrange(0, i as int)) is None,
                decreases list@.len() - i,
            {
                let ghost next = list@.subrange(0, i + 1);
                proof {
                    assert(next.drop_last() =~= list@.subrange(0, i as int));
                    assert(next.last() == list@[i as int]);
                }
                match glob_new(list[i].as_str()) {
                    Ok(g) => {
                        globs.push(g);
                    },
                    Err(_) => {
                        proof {
                            assert(!glob_pattern_valid(next.last()@));
                            assert(first_invalid(next) == Some(i as int));
                            lemma_first_invalid_prefix(list@, (i + 1) as nat);
                            assert(patterns_of(*patterns) == list@);
                        }
                        return Err(i);
                    },
                }
                i = i + 1;
            }
            proof {
                assert(list@.subrange(0, list@.len() as int) =~= list@);
            }
            Ok(globs)
        },
    }
}

proof fn lemma_first_invalid_bounds(s: Seq<String>)
    ensures
        first_invalid(s) matches Some(k) ==> 0 <= k < s.len() && !glob_pattern_valid(s[k]@),
    decreases s.len(),
{
    if s.len() > 0 {
        lemma_first_invalid_bounds(s.drop_last());
    }
}

proof fn lemma_first_invalid_none(s: Seq<String>)
    requires
        first_invalid(s) is None,
    ensures
        forall|i: int| 0 <= i < s.len() ==> glob_pattern_valid((#[trigger] s[i])@),
    decreases s.len(),
{
    if s.len() > 0 {
        lemma_first_invalid_none(s.drop_last());
        assert forall|i: int| 0 <= i < s.len() implies glob_pattern_valid((#[trigger] s[i])@) by {
            if i < s.len() - 1 {
                assert(s[i] == s.drop_last()[i]);
            }
        }
    }
}

proof fn lemma_first_invalid_dir_bounds(s: Seq<TomlAssetDir>)
    ensures
        first_invalid_dir(s) matches Some(k) ==> 0 <= k < s.len() && !asset_dir_valid(s[k]),
    decreases s.len(),
{
    if s.len() > 0 {
        lemma_first_invalid_dir_bounds(s.drop_last());
    }
}

proof fn lemma_first_invalid_prefix(s: Seq<String>, n: nat)
    requires
        n <= s.len(),
        first_invalid(s.subrange(0, n as int)) is Some,
    ensures
        first_invalid(s) == first_invalid(s.subrange(0, n as int)),
    decreases s.len() - n,
{
    if n < s.len() {
        let p = s.subrange(0, n + 1int);
        assert(p.drop_last() =~= s.subrange(0, n as int));
        lemma_first_invalid_prefix(s, n + 1);
    } else {
        assert(s.subrange(0, n as int) =~= s);
    }
}

/// Builds an asset directory: its path and name, and its exclusion and inclusion patterns
/// compiled in order.
pub fn asset_dir_from_toml(d: TomlAssetDir) -> (r: Result<AssetDir, ConfigError>)
    ensures
        asset_dir_valid(d) <==> r is Ok,
        r matches Ok(a) ==> a.built_from(d),
        r matches Err(e) ==> config_error_view(e) == ({
            let (is_exclude, pattern) = asset_dir_error(d);
            (is_exclude, pattern, d.path@)
        }),
{
    proof {
        lemma_first_invalid_bounds(patterns_of(d.exclude_patterns));
        lemma_first_invalid_bounds(patterns_of(d.include_patterns));
    }
    let exclude_globs = match compile_globs(&d.exclude_patterns) {
        Ok(g) => g,
        Err(k) => {
            let pattern = d.exclude_patterns.as_ref().unwrap()[k].clone();
            return Err(ConfigError::InvalidExcludePattern { pattern, dir: d.path.clone() });
        },
    };
    let include_globs = match compile_globs(&d.include_patterns) {
        Ok(g) => g,
        Err(k) => {
            let pattern = d.include_patterns.as_ref().unwrap()[k].clone();
            return Err(ConfigError::InvalidIncludePattern { pattern, dir: d.path.clone() });
        },
    };
    proof {
        lemma_first_invalid_none(patterns_of(d.exclude_patterns));
        lemma_first_invalid_none(patterns_of(d.include_patterns));
    }
    let exclude_patterns = match d.exclude_patterns {
        Some(v) => v,
        None => Vec::new(),
    };
    let include_patterns = match d.include_patterns {
        Some(v) => v,
        None => Vec::new(),
    };
    Ok(AssetDir { path: d.path, name: d.name, exclude_patterns, include_patterns, exclude_globs, include_globs })
}

/// Whether `built` is the tool path `raw` with no arguments of its own (none for none).
pub open spec fn tool_built(raw: Option<String>, built: Option<(String, Vec<String>)>) -> bool {
    match (raw, built) {
        (None, None) => true,
        (Some(p), Some((q, args))) => q == p && args@.len() == 0,
        _ => false,
    }
}

/// A tool path with no arguments of its own.
fn tool_path(p: Option<String>) -> (r: Option<(String, Vec<String>)>)
    ensures
        tool_built(p, r),
{
    match p {
        None => None,
        Some(s) => Some((s, Vec::new())),
    }
}

/// Index of the first asset directory with an invalid pattern, if any.
pub open spec fn first_invalid_dir(dirs: Seq<TomlAssetDir>) -> Option<int>
    decreases dirs.len(),
{
    if dirs.len() == 0 {
        None
    } else {
        match first_invalid_dir(dirs.drop_last()) {
            Some(k) => Some(k),
            None => if asset_dir_valid(dirs.last()) {
                None
            } else {
                Some(dirs.len() - 1)
            },
        }
    }
}

/// Builds the configuration from the file's values: the asset directories in order (the
/// first invalid pattern gives the error), the data directory, the tool paths (none when the
/// file has no tool section), the address and the port.
pub fn config_from_toml(t: TomlConfig) -> (r: Result<Config, ConfigError>)
    ensures
        first_invalid_dir(t.asset_dirs@) is None <==> r is Ok,
        r matches Err(e) ==> ({
            let d = t.asset_dirs@[first_invalid_dir(t.asset_dirs@)->0];
            config_error_view(e) == ({
                let (is_exclude, pattern) = asset_dir_error(d);
                (is_exclude, pattern, d.path@)
            })
        }),
        r matches Ok(c) ==> {
            &&& c.asset_dirs@.len() == t.asset_dirs@.len()
            &&& forall|i: int|
                0 <= i < c.asset_dirs@.len() ==> (#[trigger] c.asset_dirs@[i]).built_from(
                    t.asset_dirs@[i],
                )
            &&& c.data_dir == (DataDir {
                path: t.data_dir.path,
                name: t.data_dir.name,
                db_path: t.data_dir.db_path,
            })
            &&& c.address == t.address
            &&& c.port == t.port
            &&& match t.bin_paths {
                None => c.bin_paths.ffmpeg is None && c.bin_paths.ffprobe is None
                    && c.bin_paths.exiftool is None && c.bin_paths.gpac is None,
                Some(b) => {
                    &&& tool_built(b.ffmpeg, c.bin_paths.ffmpeg)
                    &&& tool_built(b.ffprobe, c.bin_paths.ffprobe)
                    &&& tool_built(b.exiftool, c.bin_paths.exiftool)
                    &&& tool_built(b.gpac, c.bin_paths.gpac)
                },
            }
        },
{
    let ghost dirs = t.asset_dirs@;
    let n = t.asset_dirs.len();
    let mut rest = t.asset_dirs;
    let mut asset_dirs: Vec<AssetDir> = Vec::new();
    let mut done: usize = 0;
    while rest.len() > 0
        invariant
            dirs == t.asset_dirs@,
            done + rest@.len() == dirs.len(),
            dirs.len() == n,
            rest@ == dirs.subrange(done as int, dirs.len() as int),
            asset_dirs@.len() == done,
            first_invalid_dir(dirs.subrange(0, done as int)) is None,
            forall|i: int| 0 <= i < done ==> (#[trigger] asset_dirs@[i]).built_from(dirs[i]),
        decreases rest@.len(),
    {
        let ghost before = rest@;
        let d = rest.remove(0);
        proof {
            assert(before[0] == d);
            assert(d == dirs[done as int]);
            assert(rest@ =~= dirs.subrange(done + 1, dirs.len() as int));
            let p = dirs.subrange(0, done + 1);
            assert(p.drop_last() =~= dirs.subrange(0, done as int));
            assert(p.last() == d);
        }
        match asset_dir_from_toml(d) {
            Ok(a) => {
                asset_dirs.push(a);
            },
            Err(e) => {
                proof {
                    let p = dirs.subrange(0, done + 1);
                    assert(!asset_dir_valid(p.last()));
                    assert(first_invalid_dir(p) == Some(done as int));
                    lemma_first_invalid_dir_prefix(dirs, (done + 1) as nat);
                    lemma_first_invalid_dir_bounds(dirs);
                }
                return Err(e);
            },
        }
        done = done + 1;
    }
    proof {
        assert(dirs.subrange(0, done as int) =~= dirs);
    }
    let data_dir = DataDir {
        path: t.data_dir.path,
        name: t.data_dir.name,
        db_path: t.data_dir.db_path,
    };
    let bin_paths = match t.bin_paths {
        Some(b) => BinPaths {
            ffmpeg: tool_path(b.ffmpeg),
            ffprobe: tool_path(b.ffprobe),
            exiftool: tool_path(b.exiftool),
            gpac: tool_path(b.gpac),
        },
        None => BinPaths { ffmpeg: None, ffprobe: None, exiftool: None, gpac: None },
    };
    Ok(Config { asset_dirs, data_dir, bin_paths, address: t.address, port: t.port })
}

proof fn lemma_first_invalid_dir_prefix(s: Seq<TomlAssetDir>, n: nat)
    requires
        n <= s.len(),
        first_invalid_dir(s.subrange(0, n as int)) is Some,
    ensures
        first_invalid_dir(s) == first_invalid_dir(s.subrange(0, n as int)),
    decreases s.len() - n,
{
    if n < s.len() {
        let p = s.subrange(0, n + 1int);
        assert(p.drop_last() =~= s.subrange(0, n as int));
        lemma_first_invalid_dir_prefix(s, n + 1);
    } else {
        assert(s.subrange(0, n as int) =~= s);
    }
}

/// A tool's path and its own arguments, or `default_name` with none.
pub open spec fn tool_or_default(t: Option<(String, Vec<String>)>, default_name: Seq<char>) -> (
    Seq<char>,
    Seq<String>,
) {
    match t {
        Some((p, args)) => (p@, args@),
        None => (default_name, Seq::empty()),
    }
}

fn tool_or<'a>(t: &'a Option<(String, Vec<String>)>, default_name: &'a str) -> (r: (&'a str, &'a [String]))
    ensures
        (r.0@, r.1@) == tool_or_default(*t, default_name@),
{
    match t {
        Some((path, args)) => (path.as_str(), args.as_slice()),
        None => (default_name, &[]),
    }
}

impl BinPaths {
    /// FFmpeg's path and its own arguments (`ffmpeg` from the search path by default).
    pub fn ffmpeg_path(&self) -> (r: (&str, &[String]))
        ensures
            (r.0@, r.1@) == tool_or_default(self.ffmpeg, "ffmpeg"@),
    {
        tool_or(&self.ffmpeg, "ffmpeg")
    }

    /// ffprobe's path and its own arguments (`ffprobe` from the search path by default).
    pub fn ffprobe_path(&self) -> (r: (&str, &[String]))
        ensures
            (r.0@, r.1@) == tool_or_default(self.ffprobe, "ffprobe"@),
    {
        tool_or(&self.ffprobe, "ffprobe")
    }

    /// exiftool's path and its own arguments (`exiftool` from the search path by default).
    pub fn exiftool_path(&self) -> (r: (&str, &[String]))
        ensures
            (r.0@, r.1@) == tool_or_default(self.exiftool, "exiftool"@),
    {
        tool_or(&self.exiftool, "exiftool")
    }

    /// gpac's path and its own arguments (`gpac` from the search path by default).
    pub fn gpac_path(&self) -> (r: (&str, &[String]))
        ensures
            (r.0@, r.1@) == tool_or_default(self.gpac, "gpac"@),
    {
        tool_or(&self.gpac, "gpac")
    }
}

/// Index of the first asset directory of `dirs` whose path is the path `path`, compared
/// component by component (so a trailing separator or a repeated one makes no difference), if
/// any.
pub open spec fn asset_dir_index_spec(dirs: Seq<AssetDir>, path: Seq<char>) -> Option<int>
    decreases dirs.len(),
{
    if dirs.len() == 0 {
        None
    } else {
        match asset_dir_index_spec(dirs.drop_last(), path) {
            Some(k) => Some(k),
            None => if path_components_of(dirs.last().path@) == path_components_of(path) {
                Some(dirs.len() - 1)
            } else {
                None
            },
        }
    }
}

impl Config {
    /// Index of the first configured asset directory whose path is the path `path` (compared
    /// component by component), if any.
    pub fn asset_dir_index(&self, path: &str) -> (r: Option<usize>)
        ensures
            match r {
                None => asset_dir_index_spec(self.asset_dirs@, path@) is None,
                Some(k) => asset_dir_index_spec(self.asset_dirs@, path@) == Some(k as int),
            },
    {
        let wanted = path_components(path);
        let mut i: usize = 0;
        while i < self.asset_dirs.len()
            invariant
                i <= self.asset_dirs@.len(),
                texts(wanted@) == path_components_of(path@),
                asset_dir_index_spec(self.asset_dirs@.subrange(0, i as int), path@) is None,
            decreases self.asset_dirs@.len() - i,
        {
            let ghost p = self.asset_dirs@.subrange(0, i + 1);
            proof {
                assert(p.drop_last() =~= self.asset_dirs@.subrange(0, i as int));
                assert(p.last() == self.asset_dirs@[i as int]);
            }
            let comps = path_components(self.asset_dirs[i].path.as_str());
            if same_texts(&comps, &wanted) {
                proof {
                    lemma_asset_dir_index_prefix(self.asset_dirs@, path@, (i + 1) as nat);
                }
                return Some(i);
            }
            i = i + 1;
        }
        proof {
            assert(self.asset_dirs@.subrange(0, i as int) =~= self.asset_dirs@);
        }
        None
    }
}

proof fn lemma_asset_dir_index_prefix(s: Seq<AssetDir>, path: Seq<char>, n: nat)
    requires
        n <= s.len(),
        asset_dir_index_spec(s.subrange(0, n as int), path) is Some,
    ensures
        asset_dir_index_spec(s, path) == asset_dir_index_spec(s.subrange(0, n as int), path),
    decreases s.len() - n,
{
    if n < s.len() {
        let p = s.subrange(0, n + 1int);
        assert(p.drop_last() =~= s.subrange(0, n as int));
        lemma_asset_dir_index_prefix(s, path, n + 1);
    } else {
        assert(s.subrange(0, n as int) =~= s);
    }
}

} // verus!

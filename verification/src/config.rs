//! Where the database lives: a path from the command line, else from
//! `CAGLLA_DB`, else from `caglla.toml` in the working directory, else
//! `caglla.db` there. Paths are kept as their components.

use vstd::prelude::*;
use crate::text::{chars_of, push_str, str_eq, string_from_chars, trim, trim_chars};

verus! {

pub const CONFIG_FILE_NAME: &'static str = "caglla.toml";

pub const DEFAULT_DB_FILE: &'static str = "caglla.db";

pub const ENV_DB_PATH: &'static str = "CAGLLA_DB";

/// Where the database path came from.
#[derive(Clone, Copy, Debug, PartialEq, Eq, Structural)]
pub enum DbPathSource {
    Cli,
    Env,
    Config,
    Default,
}

impl DbPathSource {
    pub fn as_str(self) -> (s: &'static str)
        ensures
            s@ == match self {
                DbPathSource::Cli => "cli"@,
                DbPathSource::Env => "env"@,
                DbPathSource::Config => "config"@,
                DbPathSource::Default => "default"@,
            },
    {
        match self {
            DbPathSource::Cli => "cli",
            DbPathSource::Env => "env",
            DbPathSource::Config => "config",
            DbPathSource::Default => "default",
        }
    }
}

/// A file-system path as its components: whether it starts at the root,
/// then its named parts, `..` standing for the parent directory.
#[derive(Clone, Debug)]
pub struct PathModel {
    pub absolute: bool,
    pub parts: Vec<String>,
}

pub open spec fn parts_view(p: Seq<String>) -> Seq<Seq<char>> {
    p.map_values(|s: String| s@)
}

/// A path as (absolute, parts).
pub open spec fn path_view(p: PathModel) -> (bool, Seq<Seq<char>>) {
    (p.absolute, parts_view(p.parts@))
}

/// A finished segment is kept unless it is empty or `.`.
pub open spec fn flush_segment(parts: Seq<Seq<char>>, cur: Seq<char>) -> Seq<Seq<char>> {
    if cur.len() == 0 || cur == "."@ {
        parts
    } else {
        parts.push(cur)
    }
}

/// The parts found in the first `n` characters, and the segment in progress.
pub open spec fn scan_path(s: Seq<char>, n: nat) -> (Seq<Seq<char>>, Seq<char>)
    decreases n,
{
    if n == 0 || n > s.len() {
        (Seq::empty(), Seq::empty())
    } else {
        let (ps, cur) = scan_path(s, (n - 1) as nat);
        if s[n - 1] == '/' {
            (flush_segment(ps, cur), Seq::empty())
        } else {
            (ps, cur.push(s[n - 1]))
        }
    }
}

/// The components of a path written as text (`/` separates them; empty and
/// `.` components are dropped).
pub open spec fn text_path(s: Seq<char>) -> (bool, Seq<Seq<char>>) {
    let (ps, cur) = scan_path(s, s.len());
    (s.len() > 0 && s[0] == '/', flush_segment(ps, cur))
}

fn flush_into(parts: &mut Vec<String>, cur: &Vec<char>)
    ensures
        parts_view(final(parts)@) == flush_segment(parts_view(old(parts)@), cur@),
{
    let dot = chars_of(".");
    if cur.len() == 0 || crate::text::chars_eq(cur.as_slice(), dot.as_slice()) {
        return;
    }
    parts.push(string_from_chars(cur.as_slice()));
    assert(parts_view(parts@) =~= parts_view(old(parts)@).push(cur@));
}

/// Reads a path written as text.
pub fn parse_path(s: &str) -> (p: PathModel)
    ensures
        path_view(p) == text_path(s@),
{
    let v = chars_of(s);
    let n = v.len();
    let mut parts: Vec<String> = Vec::new();
    let mut cur: Vec<char> = Vec::new();
    let mut i: usize = 0;
    while i < n
        invariant
            n == v@.len(),
            i <= n,
            (parts_view(parts@), cur@) == scan_path(v@, i as nat),
        decreases n - i,
    {
        if v[i] == '/' {
            flush_into(&mut parts, &cur);
            cur = Vec::new();
        } else {
            cur.push(v[i]);
        }
        i = i + 1;
    }
    flush_into(&mut parts, &cur);
    PathModel { absolute: n > 0 && v[0] == '/', parts }
}

/// `base` followed by `tail` (an absolute `tail` replaces `base`), as
/// `Path::join` does.
pub open spec fn join_paths(base: (bool, Seq<Seq<char>>), tail: (bool, Seq<Seq<char>>)) -> (
    bool,
    Seq<Seq<char>>,
) {
    if tail.0 {
        tail
    } else {
        (base.0, base.1 + tail.1)
    }
}

/// Drops `.` parts; a `..` removes the part before it, or stays when there
/// is none.
pub open spec fn normalize_parts(parts: Seq<Seq<char>>) -> Seq<Seq<char>>
    decreases parts.len(),
{
    if parts.len() == 0 {
        Seq::empty()
    } else {
        let acc = normalize_parts(parts.drop_last());
        let p = parts.last();
        if p == "."@ {
            acc
        } else if p == ".."@ {
            if acc.len() > 0 {
                acc.drop_last()
            } else {
                acc.push(".."@)
            }
        } else {
            acc.push(p)
        }
    }
}

/// Parts as normalizing leaves them: no `.` part, and `..` only first.
pub open spec fn parts_normalized(p: Seq<Seq<char>>) -> bool {
    forall|i: int| 0 <= i < p.len() ==> #[trigger] p[i] != "."@ && (p[i] == ".."@ ==> i == 0)
}

proof fn lemma_normalize_parts_normalized(parts: Seq<Seq<char>>)
    ensures
        parts_normalized(normalize_parts(parts)),
    decreases parts.len(),
{
    reveal_strlit(".");
    reveal_strlit("..");
    if parts.len() > 0 {
        lemma_normalize_parts_normalized(parts.drop_last());
        let acc = normalize_parts(parts.drop_last());
        let r = normalize_parts(parts);
        assert forall|i: int| 0 <= i < r.len() implies #[trigger] r[i] != "."@ && (r[i] == ".."@ ==> i
            == 0) by {
            if i < acc.len() {
                assert(r[i] == acc[i]);
            }
        };
    }
}

proof fn lemma_normalized_parts_unchanged(p: Seq<Seq<char>>)
    requires
        parts_normalized(p),
    ensures
        normalize_parts(p) == p,
    decreases p.len(),
{
    reveal_strlit(".");
    reveal_strlit("..");
    if p.len() > 0 {
        let q = p.drop_last();
        assert forall|i: int| 0 <= i < q.len() implies #[trigger] q[i] != "."@ && (q[i] == ".."@ ==> i
            == 0) by {
            assert(q[i] == p[i]);
        };
        lemma_normalized_parts_unchanged(q);
        assert(p[p.len() - 1] != "."@);
        if p.last() == ".."@ {
            assert(p.len() == 1);
            assert(q =~= Seq::<Seq<char>>::empty());
            assert(seq![".."@] =~= p);
        } else {
            assert(q.push(p.last()) =~= p);
        }
    }
}

/// Normalizing a path a second time changes nothing.
pub proof fn lemma_normalize_parts_idempotent(parts: Seq<Seq<char>>)
    ensures
        normalize_parts(normalize_parts(parts)) == normalize_parts(parts),
{
    lemma_normalize_parts_normalized(parts);
    lemma_normalized_parts_unchanged(normalize_parts(parts));
}

fn copy_parts(p: &Vec<String>) -> (c: Vec<String>)
    ensures
        parts_view(c@) == parts_view(p@),
{
    let mut c: Vec<String> = Vec::new();
    let n = p.len();
    let mut i: usize = 0;
    while i < n
        invariant
            n == p@.len(),
            i <= n,
            parts_view(c@) == parts_view(p@).take(i as int),
        decreases n - i,
    {
        let ghost before = c@;
        let s = p[i].clone();
        c.push(s);
        assert(parts_view(c@) =~= parts_view(before).push(p@[i as int]@));
        assert(parts_view(p@).take(i + 1) =~= parts_view(p@).take(i as int).push(p@[i as int]@));
        i = i + 1;
    }
    assert(parts_view(p@).take(n as int) =~= parts_view(p@));
    c
}

/// A path with its `.` and `..` parts resolved.
pub fn normalize_path(path: &PathModel) -> (r: PathModel)
    ensures
        path_view(r) == (path.absolute, normalize_parts(parts_view(path.parts@))),
{
    let n = path.parts.len();
    let mut acc: Vec<String> = Vec::new();
    let mut i: usize = 0;
    while i < n
        invariant
            n == path.parts@.len(),
            i <= n,
            parts_view(acc@) == normalize_parts(parts_view(path.parts@).take(i as int)),
        decreases n - i,
    {
        let ghost before = parts_view(acc@);
        let p = &path.parts[i];
        assert(parts_view(path.parts@).take(i + 1).drop_last() =~= parts_view(path.parts@).take(
            i as int,
        ));
        assert(parts_view(path.parts@).take(i + 1).last() == p@);
        if str_eq(p.as_str(), ".") {
        } else if str_eq(p.as_str(), "..") {
            if acc.len() > 0 {
                acc.pop();
                assert(parts_view(acc@) =~= before.drop_last());
            } else {
                acc.push(String::from_str(".."));
                assert(parts_view(acc@) =~= before.push(".."@));
            }
        } else {
            acc.push(p.clone());
            assert(parts_view(acc@) =~= before.push(p@));
        }
        i = i + 1;
    }
    assert(parts_view(path.parts@).take(n as int) =~= parts_view(path.parts@));
    PathModel { absolute: path.absolute, parts: acc }
}

/// `base` joined with `path`.
pub fn join_path(base: &PathModel, path: &PathModel) -> (r: PathModel)
    ensures
        path_view(r) == join_paths(path_view(*base), path_view(*path)),
{
    if path.absolute {
        return PathModel { absolute: true, parts: copy_parts(&path.parts) };
    }
    let mut parts = copy_parts(&base.parts);
    let n = path.parts.len();
    let ghost start = parts_view(parts@);
    let mut i: usize = 0;
    while i < n
        invariant
            n == path.parts@.len(),
            i <= n,
            parts_view(parts@) == start + parts_view(path.parts@).take(i as int),
        decreases n - i,
    {
        let ghost before = parts@;
        let s = path.parts[i].clone();
        parts.push(s);
        assert(parts_view(parts@) =~= parts_view(before).push(path.parts@[i as int]@));
        assert(parts_view(path.parts@).take(i + 1) =~= parts_view(path.parts@).take(i as int).push(
            path.parts@[i as int]@,
        ));
        i = i + 1;
    }
    assert(parts_view(path.parts@).take(n as int) =~= parts_view(path.parts@));
    PathModel { absolute: base.absolute, parts }
}

/// A user-given path resolved against `base` and normalized.
pub open spec fn user_path(base: (bool, Seq<Seq<char>>), path: (bool, Seq<Seq<char>>)) -> (
    bool,
    Seq<Seq<char>>,
) {
    let j = join_paths(base, path);
    (j.0, normalize_parts(j.1))
}

pub fn resolve_user_path(base: &PathModel, path: &PathModel) -> (r: PathModel)
    ensures
        path_view(r) == user_path(path_view(*base), path_view(*path)),
{
    let joined = join_path(base, path);
    normalize_path(&joined)
}

/// A resolved database location.
#[derive(Clone, Debug)]
pub struct ResolvedDbPath {
    pub path: PathModel,
    pub source: DbPathSource,
    pub config_path: Option<PathModel>,
}

/// Why the configuration file gave no database path.
#[derive(Clone, Debug)]
pub enum ConfigError {
    /// The file could not be read.
    Unreadable,
    /// The file is not valid TOML with a `[database]` table holding `path`.
    InvalidToml,
    /// `[database].path` is blank.
    EmptyPath,
}

impl ConfigError {
    /// The message shown to the user, about the configuration file at `config_path`.
    pub fn message(&self, config_path: &str) -> (s: String)
        ensures
            s@ == "config ファイル '"@ + config_path@ + match self {
                ConfigError::Unreadable => "' の読み込みに失敗しました"@,
                ConfigError::InvalidToml => "' の TOML 解析に失敗しました"@,
                ConfigError::EmptyPath => "' の [database].path が空です"@,
            },
    {
        let mut v: Vec<char> = Vec::new();
        push_str(&mut v, "config ファイル '");
        push_str(&mut v, config_path);
        match self {
            ConfigError::Unreadable => push_str(&mut v, "' の読み込みに失敗しました"),
            ConfigError::InvalidToml => push_str(&mut v, "' の TOML 解析に失敗しました"),
            ConfigError::EmptyPath => push_str(&mut v, "' の [database].path が空です"),
        }
        string_from_chars(v.as_slice())
    }
}

/// What decides the database location: the working directory, the
/// `--db` path, the `CAGLLA_DB` value, and, when `caglla.toml` exists in
/// the working directory, what reading its `[database].path` gave.
pub struct DbPathResolveInputs<'a> {
    pub cwd: &'a PathModel,
    pub cli_db: Option<&'a str>,
    pub env_caglla_db: Option<&'a str>,
    pub config_file: Option<Result<&'a str, ConfigError>>,
}

pub open spec fn file_in(dir: (bool, Seq<Seq<char>>), name: Seq<char>) -> (bool, Seq<Seq<char>>) {
    (dir.0, dir.1.push(name))
}

pub open spec fn opt_path_view(p: Option<PathModel>) -> Option<(bool, Seq<Seq<char>>)> {
    match p {
        Some(x) => Some(path_view(x)),
        None => None,
    }
}

/// The database location: `--db` first, then a non-blank `CAGLLA_DB`,
/// then the configuration file (its path relative to the working
/// directory), then `caglla.db` in the working directory.
pub open spec fn db_path_result(
    cwd: (bool, Seq<Seq<char>>),
    cli_db: Option<Seq<char>>,
    env: Option<Seq<char>>,
    config: Option<Result<Seq<char>, ConfigError>>,
) -> Result<(bool, Seq<Seq<char>>, DbPathSource, Option<(bool, Seq<Seq<char>>)>), ConfigError> {
    if cli_db is Some {
        let p = user_path(cwd, text_path(cli_db->Some_0));
        Ok((p.0, p.1, DbPathSource::Cli, None))
    } else if env matches Some(e) && trim(e).len() > 0 {
        let p = user_path(cwd, text_path(env->Some_0));
        Ok((p.0, p.1, DbPathSource::Env, None))
    } else {
        match config {
            Some(Err(e)) => Err(e),
            Some(Ok(raw)) => if trim(raw).len() == 0 {
                Err(ConfigError::EmptyPath)
            } else {
                let p = user_path(cwd, text_path(trim(raw)));
                Ok((p.0, p.1, DbPathSource::Config, Some(file_in(cwd, "caglla.toml"@))))
            },
            None => {
                let p = file_in(cwd, "caglla.db"@);
                Ok((p.0, p.1, DbPathSource::Default, None))
            },
        }
    }
}

/// A database path written absolute (its text starts with `/`) is taken as
/// it stands, whether it comes from `--db`, from `CAGLLA_DB` or from the
/// configuration file: the resolved path is absolute, its parts are those of
/// the text with `.` and `..` resolved, and the working directory plays no
/// part in it. One written relative, from `--db` or `CAGLLA_DB`, is placed
/// under the working directory.
pub proof fn lemma_absolute_db_path_kept(
    cwd: (bool, Seq<Seq<char>>),
    cli_db: Option<Seq<char>>,
    env: Option<Seq<char>>,
    config: Option<Result<Seq<char>, ConfigError>>,
)
    ensures
        cli_db matches Some(c) ==> (c.len() > 0 && c[0] == '/' ==> db_path_result(
            cwd,
            cli_db,
            env,
            config,
        ) == Ok::<(bool, Seq<Seq<char>>, DbPathSource, Option<(bool, Seq<Seq<char>>)>), ConfigError>(
            (true, normalize_parts(text_path(c).1), DbPathSource::Cli, None),
        )),
        cli_db is None ==> (env matches Some(e) ==> (e.len() > 0 && e[0] == '/' ==> db_path_result(
            cwd,
            cli_db,
            env,
            config,
        ) == Ok::<(bool, Seq<Seq<char>>, DbPathSource, Option<(bool, Seq<Seq<char>>)>), ConfigError>(
            (true, normalize_parts(text_path(e).1), DbPathSource::Env, None),
        ))),
        cli_db matches Some(c) ==> (!(c.len() > 0 && c[0] == '/') ==> db_path_result(
            cwd,
            cli_db,
            env,
            config,
        ) == Ok::<(bool, Seq<Seq<char>>, DbPathSource, Option<(bool, Seq<Seq<char>>)>), ConfigError>(
            (cwd.0, normalize_parts(cwd.1 + text_path(c).1), DbPathSource::Cli, None),
        )),
        cli_db is None ==> (env matches Some(e) ==> (trim(e).len() > 0 && !(e.len() > 0 && e[0]
            == '/') ==> db_path_result(cwd, cli_db, env, config) == Ok::<
            (bool, Seq<Seq<char>>, DbPathSource, Option<(bool, Seq<Seq<char>>)>),
            ConfigError,
        >((cwd.0, normalize_parts(cwd.1 + text_path(e).1), DbPathSource::Env, None)))),
        cli_db is None && env is None ==> (config matches Some(Ok(raw)) ==> (trim(raw).len() > 0
            && trim(raw)[0] == '/' ==> (db_path_result(cwd, cli_db, env, config) matches Ok(r)
            && r.0 && r.1 == normalize_parts(text_path(trim(raw)).1) && r.2
            == DbPathSource::Config))),
{
    if cli_db is None {
        match env {
            Some(e) => {
                if e.len() > 0 && e[0] == '/' {
                    assert(!crate::text::is_white_space(e[0]));
                    crate::text::lemma_trim_keeps_solid_start(e);
                }
            },
            None => {},
        }
    }
}

pub open spec fn opt_err_view(o: Option<Result<&str, ConfigError>>) -> Option<Result<Seq<char>, ConfigError>> {
    match o {
        Some(Ok(s)) => Some(Ok(s@)),
        Some(Err(e)) => Some(Err(e)),
        None => None,
    }
}

fn file_in_dir(dir: &PathModel, name: &str) -> (r: PathModel)
    ensures
        path_view(r) == file_in(path_view(*dir), name@),
{
    let mut parts = copy_parts(&dir.parts);
    let ghost before = parts_view(parts@);
    parts.push(String::from_str(name));
    assert(parts_view(parts@) =~= before.push(name@));
    PathModel { absolute: dir.absolute, parts }
}

pub fn resolve_db_path(inputs: DbPathResolveInputs) -> (r: Result<ResolvedDbPath, ConfigError>)
    ensures
        match r {
            Ok(res) => db_path_result(
                path_view(*inputs.cwd),
                crate::summary::opt_view(inputs.cli_db),
                crate::summary::opt_view(inputs.env_caglla_db),
                opt_err_view(inputs.config_file),
            ) == Ok::<
                (bool, Seq<Seq<char>>, DbPathSource, Option<(bool, Seq<Seq<char>>)>),
                ConfigError,
            >((path_view(res.path).0, path_view(res.path).1, res.source, opt_path_view(res.config_path))),
            Err(e) => db_path_result(
                path_view(*inputs.cwd),
                crate::summary::opt_view(inputs.cli_db),
                crate::summary::opt_view(inputs.env_caglla_db),
                opt_err_view(inputs.config_file),
            ) == Err::<
                (bool, Seq<Seq<char>>, DbPathSource, Option<(bool, Seq<Seq<char>>)>),
                ConfigError,
            >(e),
        },
{
    match inputs.cli_db {
        Some(cli) => {
            let p = parse_path(cli);
            return Ok(ResolvedDbPath {
                path: resolve_user_path(inputs.cwd, &p),
                source: DbPathSource::Cli,
                config_path: None,
            });
        },
        None => {},
    }
    match inputs.env_caglla_db {
        Some(env) => {
            let all = chars_of(env);
            let t = trim_chars(all.as_slice());
            if t.len() > 0 {
                let p = parse_path(env);
                return Ok(ResolvedDbPath {
                    path: resolve_user_path(inputs.cwd, &p),
                    source: DbPathSource::Env,
                    config_path: None,
                });
            }
        },
        None => {},
    }
    match inputs.config_file {
        Some(Err(e)) => Err(e),
        Some(Ok(raw)) => {
            let all = chars_of(raw);
            let t = trim_chars(all.as_slice());
            if t.len() == 0 {
                return Err(ConfigError::EmptyPath);
            }
            let configured = string_from_chars(t.as_slice());
            let p = parse_path(configured.as_str());
            Ok(ResolvedDbPath {
                path: resolve_user_path(inputs.cwd, &p),
                source: DbPathSource::Config,
                config_path: Some(file_in_dir(inputs.cwd, CONFIG_FILE_NAME)),
            })
        },
        None => Ok(ResolvedDbPath {
            path: file_in_dir(inputs.cwd, DEFAULT_DB_FILE),
            source: DbPathSource::Default,
            config_path: None,
        }),
    }
}

} // verus!

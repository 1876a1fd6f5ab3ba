//! Input formats of the data source, and the checks made on it before parsing.
use crate::error::TeraclioError;
use crate::text::{lowercased, str_eq, to_lower};
use vstd::prelude::*;
use vstd::string::StrSliceExecFns;

verus! {

/// The formats a data source can be written in.
#[derive(Debug, Clone, Copy, PartialEq, Eq, Structural)]
pub enum InputFormat {
    Json,
    Yaml,
    Toml,
}

/// Whether a path ends in a character that names no file: a `/`, or a `.`
/// that makes up a whole component after a `/`.
pub open spec fn ends_in_separator(p: Seq<char>) -> bool {
    p.len() > 0 && (p.last() == '/' || (p.len() >= 2 && p.last() == '.' && p[p.len() - 2] == '/'))
}

/// A path without its trailing `/` characters and `.` components.
pub open spec fn trim_slashes(p: Seq<char>) -> Seq<char>
    decreases p.len(),
{
    if ends_in_separator(p) {
        trim_slashes(p.drop_last())
    } else {
        p
    }
}

/// What follows the last `/` of a path.
pub open spec fn last_component(p: Seq<char>) -> Seq<char>
    decreases p.len(),
{
    if p.len() == 0 || p.last() == '/' {
        seq![]
    } else {
        last_component(p.drop_last()).push(p.last())
    }
}

/// What follows the last `.` of a file name, when that dot is not its first
/// character.
pub open spec fn dot_suffix(f: Seq<char>) -> Option<Seq<char>>
    decreases f.len(),
{
    if f.len() == 0 {
        None
    } else if f.last() == '.' {
        if f.len() > 1 {
            Some(seq![])
        } else {
            None
        }
    } else {
        match dot_suffix(f.drop_last()) {
            Some(e) => Some(e.push(f.last())),
            None => None,
        }
    }
}

/// The extension of a path: the part of its file name after the last dot,
/// where a file name that starts with its only dot (`.env`) and the name `..`
/// have none. The file name is the last component once trailing `/`
/// characters and `.` components are dropped (`a.yaml/./` names `a.yaml`).
pub open spec fn path_extension(p: Seq<char>) -> Option<Seq<char>> {
    let f = last_component(trim_slashes(p));
    if f == seq!['.', '.'] {
        None
    } else {
        dot_suffix(f)
    }
}

/// The format that an extension (already in lower case) names.
pub open spec fn format_of_extension(e: Seq<char>) -> InputFormat {
    if e == "yaml"@ || e == "yml"@ {
        InputFormat::Yaml
    } else if e == "toml"@ {
        InputFormat::Toml
    } else {
        InputFormat::Json
    }
}

/// The format that a format name (already in lower case) names, if any.
pub open spec fn format_of_name(n: Seq<char>) -> Option<InputFormat> {
    if n == "json"@ {
        Some(InputFormat::Json)
    } else if n == "yaml"@ || n == "yml"@ {
        Some(InputFormat::Yaml)
    } else if n == "toml"@ {
        Some(InputFormat::Toml)
    } else {
        None
    }
}

/// The message that refuses an unknown format name.
pub open spec fn unsupported_format_message(name: Seq<char>) -> Seq<char> {
    "Unsupported input format: "@ + name + ". Supported formats: json, yaml, toml"@
}

proof fn lemma_trim_prefix(p: Seq<char>, end: int)
    requires
        0 < end <= p.len(),
        ends_in_separator(p.subrange(0, end)),
    ensures
        trim_slashes(p.subrange(0, end)) == trim_slashes(p.subrange(0, end - 1)),
{
    assert(p.subrange(0, end).drop_last() =~= p.subrange(0, end - 1));
}

proof fn lemma_component_step(t: Seq<char>, start: int)
    requires
        0 < start <= t.len(),
        t[start - 1] != '/',
    ensures
        last_component(t.subrange(0, start)) == last_component(t.subrange(0, start - 1)).push(
            t[start - 1],
        ),
{
    assert(t.subrange(0, start).drop_last() =~= t.subrange(0, start - 1));
}

proof fn lemma_suffix_step(f: Seq<char>, k: int)
    requires
        0 < k <= f.len(),
        f[k - 1] != '.',
    ensures
        dot_suffix(f.subrange(0, k)) == match dot_suffix(f.subrange(0, k - 1)) {
            Some(e) => Some(e.push(f[k - 1])),
            None => None,
        },
{
    assert(f.subrange(0, k).drop_last() =~= f.subrange(0, k - 1));
}

/// Where the last component of a path lies, trailing `/` characters left out.
fn file_name_bounds(path: &str) -> (r: (usize, usize))
    ensures
        r.0 <= r.1 <= path@.len(),
        path@.subrange(r.0 as int, r.1 as int) == last_component(trim_slashes(path@)),
{
    let ghost p = path@;
    let n = path.unicode_len();
    let mut end: usize = n;
    assert(p.subrange(0, n as int) =~= p);
    while end > 0 && (path.get_char(end - 1) == '/' || (end >= 2 && path.get_char(end - 1) == '.'
        && path.get_char(end - 2) == '/'))
        invariant
            p == path@,
            end <= n == p.len(),
            trim_slashes(p) == trim_slashes(p.subrange(0, end as int)),
        decreases end,
    {
        proof {
            let q = p.subrange(0, end as int);
            assert(q.last() == p[end - 1]);
            assert(end >= 2 ==> q[q.len() - 2] == p[end - 2]);
            lemma_trim_prefix(p, end as int);
        }
        end = end - 1;
    }
    let ghost t = p.subrange(0, end as int);
    assert(!ends_in_separator(t)) by {
        if end > 0 {
            assert(t.last() == p[end - 1]);
            assert(end >= 2 ==> t[t.len() - 2] == p[end - 2]);
        }
    }
    assert(trim_slashes(t) == t);
    let mut start: usize = end;
    assert(t.subrange(0, end as int) =~= t);
    assert(t.subrange(end as int, end as int) =~= Seq::<char>::empty());
    while start > 0 && path.get_char(start - 1) != '/'
        invariant
            p == path@,
            start <= end <= n == p.len(),
            t == p.subrange(0, end as int),
            last_component(t) == last_component(t.subrange(0, start as int)) + t.subrange(
                start as int,
                end as int,
            ),
        decreases start,
    {
        proof {
            lemma_component_step(t, start as int);
            assert(t.subrange(start - 1, end as int) =~= seq![t[start - 1]] + t.subrange(
                start as int,
                end as int,
            ));
            assert(last_component(t.subrange(0, start - 1)).push(t[start - 1]) + t.subrange(
                start as int,
                end as int,
            ) =~= last_component(t.subrange(0, start - 1)) + t.subrange(start - 1, end as int));
        }
        start = start - 1;
    }
    assert(t.subrange(start as int, end as int) =~= p.subrange(start as int, end as int));
    (start, end)
}

/// Where the extension of a file name starts (just after its last dot), if it
/// has one.
fn extension_start(path: &str, start: usize, end: usize) -> (r: Option<usize>)
    requires
        start <= end <= path@.len(),
    ensures
        match dot_suffix(path@.subrange(start as int, end as int)) {
            Some(e) => r matches Some(d) && start < d <= end && e == path@.subrange(
                d as int,
                end as int,
            ),
            None => r is None,
        },
{
    let ghost p = path@;
    let ghost f = p.subrange(start as int, end as int);
    let mut dot: usize = end;
    assert(f.subrange(0, f.len() as int) =~= f);
    assert(f.subrange(f.len() as int, f.len() as int) =~= Seq::<char>::empty());
    while dot > start && path.get_char(dot - 1) != '.'
        invariant
            p == path@,
            start <= dot <= end <= p.len(),
            f == p.subrange(start as int, end as int),
            dot_suffix(f) == match dot_suffix(f.subrange(0, dot - start)) {
                Some(e) => Some(e + f.subrange(dot - start, f.len() as int)),
                None => None,
            },
        decreases dot,
    {
        let ghost k = dot - start;
        proof {
            lemma_suffix_step(f, k);
            assert(f.subrange(k - 1, f.len() as int) =~= seq![f[k - 1]] + f.subrange(
                k,
                f.len() as int,
            ));
            match dot_suffix(f.subrange(0, k - 1)) {
                Some(e) => {
                    assert(e.push(f[k - 1]) + f.subrange(k, f.len() as int) =~= e + f.subrange(
                        k - 1,
                        f.len() as int,
                    ));
                },
                None => {},
            }
        }
        dot = dot - 1;
    }
    let ghost g = f.subrange(0, dot - start);
    if dot - start > 1 {
        assert(g.last() == '.');
        assert(Seq::<char>::empty() + f.subrange(dot - start, f.len() as int) =~= p.subrange(
            dot as int,
            end as int,
        ));
        Some(dot)
    } else {
        if dot == start {
            assert(g.len() == 0);
        } else {
            assert(g.len() == 1 && g.last() == '.');
        }
        None
    }
}

impl InputFormat {
    /// The format that a path's extension names, in any case: `yaml` and `yml`
    /// give YAML, `toml` gives TOML, and anything else, or no extension, JSON.
    pub fn detect_from_extension(path: &str) -> (r: InputFormat)
        ensures
            r == match path_extension(path@) {
                Some(e) => format_of_extension(lowercased(e)),
                None => InputFormat::Json,
            },
    {
        let (start, end) = file_name_bounds(path);
        let ghost f = path@.subrange(start as int, end as int);
        if end - start == 2 && path.get_char(start) == '.' && path.get_char(start + 1) == '.' {
            assert(f =~= seq!['.', '.']);
            return InputFormat::Json;
        }
        assert(f != seq!['.', '.']) by {
            if f == seq!['.', '.'] {
                assert(f[0] == path@[start as int] && f[1] == path@[start + 1]);
            }
        }
        match extension_start(path, start, end) {
            Some(dot) => {
                let ext = to_lower(path.substring_char(dot, end));
                let e = ext.as_str();
                proof {
                    reveal_strlit("yaml");
                    reveal_strlit("yml");
                    reveal_strlit("toml");
                }
                if str_eq(e, "yaml") || str_eq(e, "yml") {
                    InputFormat::Yaml
                } else if str_eq(e, "toml") {
                    InputFormat::Toml
                } else {
                    InputFormat::Json
                }
            },
            None => InputFormat::Json,
        }
    }

    /// The format a name stands for, in any case: `json`, `yaml` or `yml`,
    /// `toml`; any other name is refused as invalid input.
    pub fn from_string(format_str: &str) -> (r: Result<InputFormat, TeraclioError>)
        ensures
            match format_of_name(lowercased(format_str@)) {
                Some(f) => r == Ok::<InputFormat, TeraclioError>(f),
                None => r matches Err(TeraclioError::InvalidInput(m)) && m@
                    == unsupported_format_message(format_str@),
            },
    {
        let lower = to_lower(format_str);
        let l = lower.as_str();
        if str_eq(l, "json") {
            Ok(InputFormat::Json)
        } else if str_eq(l, "yaml") || str_eq(l, "yml") {
            Ok(InputFormat::Yaml)
        } else if str_eq(l, "toml") {
            Ok(InputFormat::Toml)
        } else {
            let mut msg = String::from_str("Unsupported input format: ");
            msg.append(format_str);
            msg.append(". Supported formats: json, yaml, toml");
            Err(TeraclioError::InvalidInput(msg))
        }
    }
}

} // verus!

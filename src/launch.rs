//! What the sidecar is started with: its executable's path, its arguments
//! and the `PATH` it inherits.

use crate::readiness::{decimal, push_decimal};
use vstd::prelude::*;

verus! {

/// The platform the application runs on, as far as the launch depends on it.
#[derive(Clone, Copy, Debug, PartialEq, Eq, Structural)]
pub enum Platform {
    MacOs,
    Linux,
    Windows,
}

/// The file name of the sidecar's executable on each platform.
pub open spec fn binary_name_of(p: Platform) -> Seq<char> {
    match p {
        Platform::MacOs => "host_server_macos"@,
        Platform::Linux => "host_server_linux"@,
        Platform::Windows => "host_server_windows"@,
    }
}

/// The file name of the sidecar's executable.
pub fn binary_name(p: Platform) -> (r: &'static str)
    ensures
        r@ == binary_name_of(p),
{
    match p {
        Platform::MacOs => "host_server_macos",
        Platform::Linux => "host_server_linux",
        Platform::Windows => "host_server_windows",
    }
}

/// Where the executable lies, relative to the working directory in
/// development and to the resource directory in a release: a directory named
/// after the executable, holding it.
pub open spec fn binary_relative_path_of(p: Platform, dev_mode: bool) -> Seq<char> {
    (if dev_mode {
        "../node_modules/"@
    } else {
        "resources/"@
    }) + binary_name_of(p) + "/"@ + binary_name_of(p)
}

/// The executable's path relative to its base directory.
pub fn binary_relative_path(p: Platform, dev_mode: bool) -> (r: String)
    ensures
        r@ == binary_relative_path_of(p, dev_mode),
{
    let mut out = if dev_mode {
        "../node_modules/".to_string()
    } else {
        "resources/".to_string()
    };
    let name = binary_name(p);
    out.append(name);
    out.append("/");
    out.append(name);
    out
}

/// The sidecar's command-line arguments.
pub open spec fn args_of(tool_config: Seq<char>, agent_config: Seq<char>, port: u16) -> Seq<
    Seq<char>,
> {
    seq![
        "--config_file"@,
        tool_config,
        "--agent_config_file"@,
        agent_config,
        "--disable_reload"@,
        "--enable_authorization"@,
        "--port"@,
        decimal(port as nat),
    ]
}

pub open spec fn texts_of(v: Seq<String>) -> Seq<Seq<char>> {
    v.map_values(|s: String| s@)
}

/// The arguments that pass the two configuration paths and the port, with
/// reloading disabled and authorization enabled.
pub fn sidecar_args(tool_config: &str, agent_config: &str, port: u16) -> (r: Vec<String>)
    ensures
        texts_of(r@) == args_of(tool_config@, agent_config@, port),
{
    let mut port_text = String::new();
    push_decimal(&mut port_text, port as u64);
    assert(port_text@ =~= decimal(port as nat));
    let mut r: Vec<String> = Vec::new();
    r.push("--config_file".to_string());
    r.push(tool_config.to_string());
    r.push("--agent_config_file".to_string());
    r.push(agent_config.to_string());
    r.push("--disable_reload".to_string());
    r.push("--enable_authorization".to_string());
    r.push("--port".to_string());
    r.push(port_text);
    assert(texts_of(r@) =~= args_of(tool_config@, agent_config@, port));
    r
}

/// The separator between the entries of `PATH`.
pub open spec fn path_separator_of(p: Platform) -> Seq<char> {
    if p == Platform::Windows {
        ";"@
    } else {
        ":"@
    }
}

/// The `PATH` handed to the sidecar: the directory of bundled tools first,
/// then the login shell's `PATH` where one was found, else the inherited one,
/// else nothing.
pub open spec fn sidecar_path_of(
    bin_dir: Seq<char>,
    shell_path: Option<Seq<char>>,
    inherited: Option<Seq<char>>,
    p: Platform,
) -> Seq<char> {
    bin_dir + path_separator_of(p) + match shell_path {
        Some(s) => s,
        None => match inherited {
            Some(s) => s,
            None => Seq::empty(),
        },
    }
}

/// The `PATH` handed to the sidecar.
pub fn sidecar_path(bin_dir: &str, shell_path: Option<&str>, inherited: Option<&str>, p: Platform) -> (r:
    String)
    ensures
        r@ == sidecar_path_of(
            bin_dir@,
            match shell_path {
                Some(s) => Some(s@),
                None => None,
            },
            match inherited {
                Some(s) => Some(s@),
                None => None,
            },
            p,
        ),
{
    let mut out = bin_dir.to_string();
    if p == Platform::Windows {
        out.append(";");
    } else {
        out.append(":");
    }
    match shell_path {
        Some(s) => out.append(s),
        None => match inherited {
            Some(s) => out.append(s),
            None => {
                assert(out@ + Seq::<char>::empty() =~= out@);
            },
        },
    }
    out
}

/// The index of the first line break at or after `start`, or the length.
pub open spec fn line_end(s: Seq<char>, start: int) -> int
    decreases s.len() - start,
{
    if start >= s.len() {
        s.len() as int
    } else if s[start] == '\n' {
        start
    } else {
        line_end(s, start + 1)
    }
}

/// A line without its carriage return, if it ends with one.
pub open spec fn without_cr(line: Seq<char>) -> Seq<char> {
    if line.len() > 0 && line.last() == '\r' {
        line.drop_last()
    } else {
        line
    }
}

/// The value of the first line, from `start` on, that begins with `PATH=`.
pub open spec fn path_value_from(s: Seq<char>, start: int) -> Option<Seq<char>>
    decreases s.len() - start,
{
    if start < 0 || start >= s.len() {
        None
    } else {
        let line = without_cr(s.subrange(start, line_end(s, start)));
        if line.len() >= 5 && line.subrange(0, 5) == "PATH="@ {
            Some(line.subrange(5, line.len() as int))
        } else {
            let end = line_end(s, start);
            path_value_from(
                s,
                if start <= end && end < s.len() {
                    end + 1
                } else {
                    s.len() as int
                },
            )
        }
    }
}

pub proof fn lemma_line_end_bounds(s: Seq<char>, start: int)
    requires
        0 <= start <= s.len(),
    ensures
        start <= line_end(s, start) <= s.len(),
        line_end(s, start) < s.len() ==> s[line_end(s, start)] == '\n',
    decreases s.len() - start,
{
    if start < s.len() && s[start] != '\n' {
        lemma_line_end_bounds(s, start + 1);
    }
}

pub fn find_line_end(s: &str, start: usize, n: usize) -> (r: usize)
    requires
        n == s@.len(),
        start <= n,
    ensures
        r as int == line_end(s@, start as int),
{
    let mut i = start;
    while i < n && s.get_char(i) != '\n'
        invariant
            n == s@.len(),
            start <= i <= n,
            line_end(s@, i as int) == line_end(s@, start as int),
        decreases n - i,
    {
        i = i + 1;
    }
    i
}

/// The value that a listing of environment variables (one `NAME=value` per
/// line) gives to `PATH`: the rest of the first line that begins with `PATH=`.
pub fn path_from_env_listing(listing: &str) -> (r: Option<String>)
    ensures
        match r {
            Some(v) => path_value_from(listing@, 0) == Some(v@),
            None => path_value_from(listing@, 0) is None,
        },
{
    let n = listing.unicode_len();
    let mut start: usize = 0;
    while start < n
        invariant
            n == listing@.len(),
            start <= n,
            path_value_from(listing@, start as int) == path_value_from(listing@, 0),
        decreases n - start,
    {
        let end = find_line_end(listing, start, n);
        proof {
            lemma_line_end_bounds(listing@, start as int);
        }
        let mut stop = end;
        if stop > start && listing.get_char(stop - 1) == '\r' {
            stop = stop - 1;
        }
        let line = listing.substring_char(start, stop);
        assert(line@ =~= without_cr(listing@.subrange(start as int, end as int)));
        let line_len = stop - start;
        let is_path = if line_len >= 5 {
            crate::text::same_text(line.substring_char(0, 5), "PATH=")
        } else {
            false
        };
        assert(is_path == (line@.len() >= 5 && line@.subrange(0, 5) == "PATH="@));
        if is_path {
            let value = line.substring_char(5, line_len);
            return Some(value.to_string());
        }
        if end >= n {
            assert(path_value_from(listing@, end as int) is None);
            return None;
        }
        start = end + 1;
    }
    None
}

} // verus!

//! Validation of an LLVM-C installation prefix for Windows hosts.

use vstd::prelude::*;

use crate::text::{push_str, string_of};

verus! {

/// Environment variable naming the LLVM installation prefix.
pub const LLVM_PREFIX_ENV: &'static str = "LLVM_SYS_181_PREFIX";

/// Where the LLVM-C import library and runtime DLL of a prefix live.
#[derive(Clone, Debug, PartialEq, Eq)]
pub struct LlvmCLayout {
    /// The prefix.
    pub prefix: String,
    /// The prefix joined with `lib`.
    pub lib_dir: String,
    /// The prefix joined with `bin`.
    pub bin_dir: String,
    /// `lib_dir` joined with `LLVM-C.lib`.
    pub import_lib: String,
    /// `bin_dir` joined with `LLVM-C.dll`.
    pub runtime_dll: String,
}

/// A prefix, the host's path rules, and what the file system says about
/// the prefix and the two files that [`llvm_c_paths`] derives from it.
#[derive(Clone, Debug)]
pub struct PrefixProbe {
    /// The prefix.
    pub prefix: String,
    /// Whether paths follow Windows rules.
    pub windows: bool,
    /// Whether the prefix is a directory.
    pub prefix_is_dir: bool,
    /// Whether the derived import library is a file.
    pub import_lib_is_file: bool,
    /// Whether the derived runtime DLL is a file.
    pub runtime_dll_is_file: bool,
}

/// A path separator: `/`, and on Windows also `\`.
pub open spec fn is_separator(c: char, windows: bool) -> bool {
    c == '/' || (windows && c == '\\')
}

/// An ASCII letter.
pub open spec fn is_ascii_letter(c: char) -> bool {
    ('a' <= c && c <= 'z') || ('A' <= c && c <= 'Z')
}

/// On Windows, a path that is only a drive, such as `C:`.
pub open spec fn drive_only(p: Seq<char>, windows: bool) -> bool {
    windows && p.len() == 2 && is_ascii_letter(p[0]) && p[1] == ':'
}

/// The separator a join inserts: `\` on Windows, `/` elsewhere.
pub open spec fn main_separator(windows: bool) -> char {
    if windows {
        '\\'
    } else {
        '/'
    }
}

/// A name that joins as one ordinary component: not empty, without
/// separators or a drive colon, and neither `.` nor `..`.
pub open spec fn plain_name(part: Seq<char>) -> bool {
    &&& part.len() > 0
    &&& forall|i: int| 0 <= i < part.len() ==> part[i] != '/' && part[i] != '\\' && part[i] != ':'
    &&& part != seq!['.']
    &&& part != seq!['.', '.']
}

/// A Windows verbatim path: one that starts with `\\?\`.
pub open spec fn verbatim(p: Seq<char>) -> bool {
    p.len() >= 4 && p[0] == '\\' && p[1] == '\\' && p[2] == '?' && p[3] == '\\'
}

/// Position of the first `\` in `p` at or after `from`, or the length of
/// `p` when there is none.
pub open spec fn next_backslash(p: Seq<char>, from: int) -> int
    decreases p.len() - from,
{
    if from < 0 || from >= p.len() {
        p.len() as int
    } else if p[from] == '\\' {
        from
    } else {
        next_backslash(p, from + 1)
    }
}

/// Length of the prefix of a verbatim path: `\\?\UNC\server` with `\share`
/// when the share is not empty, or else `\\?\` with the text up to the next
/// `\` (such as `\\?\C:`).
pub open spec fn verbatim_prefix_len(p: Seq<char>) -> int {
    if p.len() >= 8 && p[4] == 'U' && p[5] == 'N' && p[6] == 'C' && p[7] == '\\' {
        let s = next_backslash(p, 8);
        if s >= p.len() {
            p.len() as int
        } else {
            let e = next_backslash(p, s + 1);
            if e > s + 1 {
                e
            } else {
                s
            }
        }
    } else {
        next_backslash(p, 4)
    }
}

/// The non-empty pieces of `s` between `\` characters, each preceded by
/// one `\`.
pub open spec fn pieces_text(s: Seq<char>) -> Seq<char>
    decreases s.len(),
{
    if s.len() == 0 {
        Seq::empty()
    } else {
        let t = pieces_text(s.drop_last());
        let c = s.last();
        if c == '\\' {
            t
        } else if s.len() == 1 || s[s.len() - 2] == '\\' {
            t + seq!['\\', c]
        } else {
            t.push(c)
        }
    }
}

/// `base` joined with the plain name `part`. A verbatim base on Windows is
/// rebuilt from its components: its prefix, then each non-empty piece
/// between `\` characters and finally `part`, each after one `\`.
/// Otherwise a separator goes between them unless `base` is empty, already
/// ends in a separator, or (on Windows) is only a drive.
///
/// These are the rules of `PathBuf::push` for such a name. `Path::join`
/// itself applies the rules of the platform it was built for, and what it
/// gives differs from one platform to another; here the rules are chosen
/// by `windows`, so the prefix layout of a Windows host is stated, and
/// tested, on any host.
pub open spec fn join_path(base: Seq<char>, part: Seq<char>, windows: bool) -> Seq<char> {
    if windows && verbatim(base) {
        let k = verbatim_prefix_len(base);
        base.take(k) + pieces_text(base.skip(k)) + seq!['\\'] + part
    } else if base.len() > 0 && !is_separator(base.last(), windows) && !drive_only(base, windows) {
        base.push(main_separator(windows)) + part
    } else {
        base + part
    }
}

/// The four paths of a prefix: `lib`, `bin`, `lib` + `LLVM-C.lib`, and
/// `bin` + `LLVM-C.dll`.
pub open spec fn llvm_c_paths_spec(prefix: Seq<char>, windows: bool) -> (Seq<char>, Seq<char>, Seq<char>, Seq<char>) {
    let lib = join_path(prefix, "lib"@, windows);
    let bin = join_path(prefix, "bin"@, windows);
    (lib, bin, join_path(lib, "LLVM-C.lib"@, windows), join_path(bin, "LLVM-C.dll"@, windows))
}

/// For a prefix that is not empty, does not end in a separator, is not
/// only a drive and (on Windows) is not a verbatim path, the layout is
/// `<prefix>/lib`, `<prefix>/bin`, `<prefix>/lib/LLVM-C.lib` and
/// `<prefix>/bin/LLVM-C.dll`, with the host's separator in place of `/`.
pub proof fn lemma_prefix_layout(prefix: Seq<char>, windows: bool)
    requires
        prefix.len() > 0,
        !is_separator(prefix.last(), windows),
        !drive_only(prefix, windows),
        !(windows && verbatim(prefix)),
    ensures
        ({
            let sep = seq![main_separator(windows)];
            llvm_c_paths_spec(prefix, windows) == (
                prefix + sep + "lib"@,
                prefix + sep + "bin"@,
                prefix + sep + "lib"@ + sep + "LLVM-C.lib"@,
                prefix + sep + "bin"@ + sep + "LLVM-C.dll"@,
            )
        }),
{
    let sep = seq![main_separator(windows)];
    reveal_strlit("lib");
    reveal_strlit("bin");
    assert("lib"@ =~= seq!['l', 'i', 'b']);
    assert("bin"@ =~= seq!['b', 'i', 'n']);
    let lib = join_path(prefix, "lib"@, windows);
    let bin = join_path(prefix, "bin"@, windows);
    assert(lib =~= prefix + sep + "lib"@);
    assert(bin =~= prefix + sep + "bin"@);
    assert(lib.last() == 'b');
    assert(bin.last() == 'n');
    lemma_short_verbatim_join(prefix, seq!['l', 'i', 'b'], "LLVM-C.lib"@, windows);
    lemma_short_verbatim_join(prefix, seq!['b', 'i', 'n'], "LLVM-C.dll"@, windows);
    assert(join_path(lib, "LLVM-C.lib"@, windows) =~= prefix + sep + "lib"@ + sep + "LLVM-C.lib"@);
    assert(join_path(bin, "LLVM-C.dll"@, windows) =~= prefix + sep + "bin"@ + sep + "LLVM-C.dll"@);
}

/// A prefix that is not verbatim but becomes so once `\` and a name are
/// added is `\\?`; the joined path is then a verbatim prefix alone, and a
/// further join just adds `\` and the next name.
proof fn lemma_short_verbatim_join(prefix: Seq<char>, name: Seq<char>, part: Seq<char>, windows: bool)
    requires
        prefix.len() > 0,
        !(windows && verbatim(prefix)),
        name.len() == 3,
        forall|i: int| 0 <= i < 3 ==> name[i] != '\\',
    ensures
        ({
            let p = prefix + seq!['\\'] + name;
            windows && verbatim(p) ==> join_path(p, part, windows) == p + seq!['\\'] + part
        }),
{
    let p = prefix + seq!['\\'] + name;
    if windows && verbatim(p) {
        assert(prefix.len() < 4) by {
            if prefix.len() >= 4 {
                assert(p[0] == prefix[0] && p[1] == prefix[1] && p[2] == prefix[2] && p[3] == prefix[3]);
            }
        }
        if prefix.len() < 3 {
            assert(p[prefix.len() as int + 1] == name[0]);
        }
        assert(prefix.len() == 3);
        assert(p.len() == 7);
        assert(next_backslash(p, 7) == 7);
        assert(next_backslash(p, 6) == 7);
        assert(next_backslash(p, 5) == 7);
        assert(next_backslash(p, 4) == 7);
        assert(p.skip(7) =~= Seq::<char>::empty());
        assert(p.take(7) =~= p);
        assert(pieces_text(Seq::<char>::empty()) == Seq::<char>::empty());
    }
}

fn is_letter(c: char) -> (b: bool)
    ensures
        b == is_ascii_letter(c),
{
    ('a' <= c && c <= 'z') || ('A' <= c && c <= 'Z')
}

proof fn lemma_next_backslash_bounds(p: Seq<char>, from: int)
    requires
        0 <= from <= p.len(),
    ensures
        from <= next_backslash(p, from) <= p.len(),
    decreases p.len() - from,
{
    if from < p.len() && p[from] != '\\' {
        lemma_next_backslash_bounds(p, from + 1);
    }
}

proof fn lemma_pieces_step(t: Seq<char>, c: char)
    ensures
        pieces_text(t.push(c)) == if c == '\\' {
            pieces_text(t)
        } else if t.len() == 0 || t.last() == '\\' {
            pieces_text(t) + seq!['\\', c]
        } else {
            pieces_text(t).push(c)
        },
{
    let s = t.push(c);
    assert(s.drop_last() =~= t);
    assert(s.last() == c);
    if s.len() >= 2 {
        assert(s[s.len() - 2] == t.last());
    }
}

fn next_backslash_in(v: &Vec<char>, from: usize) -> (r: usize)
    requires
        from <= v@.len(),
    ensures
        r == next_backslash(v@, from as int),
        from <= r <= v@.len(),
{
    proof {
        lemma_next_backslash_bounds(v@, from as int);
    }
    let mut i = from;
    while i < v.len()
        invariant
            from <= i <= v@.len(),
            next_backslash(v@, from as int) == next_backslash(v@, i as int),
        decreases v@.len() - i,
    {
        if v[i] == '\\' {
            return i;
        }
        i = i + 1;
    }
    i
}

/// Appends to `out` the pieces text of `v[from..]`.
fn push_pieces(out: &mut Vec<char>, v: &Vec<char>, from: usize)
    requires
        from <= v@.len(),
    ensures
        final(out)@ == old(out)@ + pieces_text(v@.skip(from as int)),
{
    let ghost rest = v@.skip(from as int);
    let mut i = from;
    while i < v.len()
        invariant
            from <= i <= v@.len(),
            rest == v@.skip(from as int),
            out@ == old(out)@ + pieces_text(rest.take(i - from)),
        decreases v@.len() - i,
    {
        let c = v[i];
        let ghost k = i - from;
        proof {
            assert(rest.take(k + 1) =~= rest.take(k).push(c));
            lemma_pieces_step(rest.take(k), c);
            if k > 0 {
                assert(rest.take(k).last() == v@[i - 1]);
            }
        }
        if c != '\\' {
            if i == from || v[i - 1] == '\\' {
                out.push('\\');
                out.push(c);
            } else {
                out.push(c);
            }
        }
        i = i + 1;
    }
    assert(rest.take(v@.len() - from) =~= rest);
}

/// Joins `base` with the plain name `part` by the host's rules.
fn join(base: &str, part: &str, windows: bool) -> (s: String)
    requires
        plain_name(part@),
    ensures
        s@ == join_path(base@, part@, windows),
{
    let b = crate::text::chars_of(base);
    let n = b.len();
    if windows && n >= 4 && b[0] == '\\' && b[1] == '\\' && b[2] == '?' && b[3] == '\\' {
        let k = if n >= 8 && b[4] == 'U' && b[5] == 'N' && b[6] == 'C' && b[7] == '\\' {
            let s = next_backslash_in(&b, 8);
            if s >= n {
                n
            } else {
                let e = next_backslash_in(&b, s + 1);
                if e > s + 1 {
                    e
                } else {
                    s
                }
            }
        } else {
            next_backslash_in(&b, 4)
        };
        let mut v: Vec<char> = Vec::new();
        let mut i: usize = 0;
        while i < k
            invariant
                i <= k <= b@.len(),
                v@ == b@.take(i as int),
            decreases k - i,
        {
            v.push(b[i]);
            assert(b@.take(i + 1) =~= b@.take(i as int).push(b@[i as int]));
            i = i + 1;
        }
        push_pieces(&mut v, &b, k);
        v.push('\\');
        push_str(&mut v, part);
        return string_of(v.as_slice());
    }
    let drive = windows && n == 2 && is_letter(b[0]) && b[1] == ':';
    let mut v: Vec<char> = b;
    if n > 0 && !(v[n - 1] == '/' || (windows && v[n - 1] == '\\')) && !drive {
        v.push(if windows {
            '\\'
        } else {
            '/'
        });
    }
    push_str(&mut v, part);
    string_of(v.as_slice())
}

proof fn lemma_plain_names()
    ensures
        plain_name("lib"@),
        plain_name("bin"@),
        plain_name("LLVM-C.lib"@),
        plain_name("LLVM-C.dll"@),
{
    reveal_strlit("lib");
    reveal_strlit("bin");
    reveal_strlit("LLVM-C.lib");
    reveal_strlit("LLVM-C.dll");
    assert("lib"@ =~= seq!['l', 'i', 'b']);
    assert("bin"@ =~= seq!['b', 'i', 'n']);
    assert("LLVM-C.lib"@ =~= seq!['L', 'L', 'V', 'M', '-', 'C', '.', 'l', 'i', 'b']);
    assert("LLVM-C.dll"@ =~= seq!['L', 'L', 'V', 'M', '-', 'C', '.', 'd', 'l', 'l']);
}

/// The library and binary directories of an LLVM prefix and the LLVM-C
/// import library and DLL in them, by the host's path rules.
pub fn llvm_c_paths(prefix: &str, windows: bool) -> (r: (String, String, String, String))
    ensures
        (r.0@, r.1@, r.2@, r.3@) == llvm_c_paths_spec(prefix@, windows),
{
    proof {
        lemma_plain_names();
    }
    let lib = join(prefix, "lib", windows);
    let bin = join(prefix, "bin", windows);
    let import_lib = join(lib.as_str(), "LLVM-C.lib", windows);
    let runtime_dll = join(bin.as_str(), "LLVM-C.dll", windows);
    (lib, bin, import_lib, runtime_dll)
}

/// Text describing the expected prefix layout.
pub open spec fn expected_layout_text() -> Seq<char> {
    "Expected the official LLVM 18 Windows archive layout, e.g.:\nLLVM_SYS_181_PREFIX=D:\\Tools\\clang+llvm-18.1.8-x86_64-pc-windows-msvc\n<prefix>\\lib\\LLVM-C.lib\n<prefix>\\bin\\LLVM-C.dll\nAlso put <prefix>\\bin on PATH so LLVM-C.dll is available at test/runtime."@
}

/// Describes the expected prefix layout.
pub fn expected_layout() -> (s: &'static str)
    ensures
        s@ == expected_layout_text(),
{
    "Expected the official LLVM 18 Windows archive layout, e.g.:\nLLVM_SYS_181_PREFIX=D:\\Tools\\clang+llvm-18.1.8-x86_64-pc-windows-msvc\n<prefix>\\lib\\LLVM-C.lib\n<prefix>\\bin\\LLVM-C.dll\nAlso put <prefix>\\bin on PATH so LLVM-C.dll is available at test/runtime."
}

/// Result of validating a probed prefix: the prefix must be a directory and
/// both LLVM-C files must exist, checked in that order.
pub open spec fn validation_spec(p: PrefixProbe) -> Result<(Seq<char>, Seq<char>, Seq<char>, Seq<char>, Seq<char>), Seq<char>> {
    let (lib, bin, import_lib, runtime_dll) = llvm_c_paths_spec(p.prefix@, p.windows);
    if !p.prefix_is_dir {
        Err(LLVM_PREFIX_ENV@ + " points to `"@ + p.prefix@ + "`, but that directory does not exist.\n"@ + expected_layout_text())
    } else if !p.import_lib_is_file {
        Err("missing `"@ + import_lib + "`.\n"@ + expected_layout_text())
    } else if !p.runtime_dll_is_file {
        Err("missing `"@ + runtime_dll + "`.\n"@ + expected_layout_text())
    } else {
        Ok((p.prefix@, lib, bin, import_lib, runtime_dll))
    }
}

/// Validate an LLVM-C prefix from what the file system says about it.
pub fn validate_llvm_c_prefix(p: &PrefixProbe) -> (r: Result<LlvmCLayout, String>)
    ensures
        match validation_spec(*p) {
            Ok(v) => r matches Ok(l) && (l.prefix@, l.lib_dir@, l.bin_dir@, l.import_lib@, l.runtime_dll@) == v,
            Err(m) => r matches Err(e) && e@ == m,
        },
{
    let (lib_dir, bin_dir, import_lib, runtime_dll) = llvm_c_paths(p.prefix.as_str(), p.windows);
    if !p.prefix_is_dir {
        let mut m: Vec<char> = Vec::new();
        push_str(&mut m, LLVM_PREFIX_ENV);
        push_str(&mut m, " points to `");
        push_str(&mut m, p.prefix.as_str());
        push_str(&mut m, "`, but that directory does not exist.\n");
        push_str(&mut m, expected_layout());
        return Err(string_of(m.as_slice()));
    }
    if !p.import_lib_is_file {
        let mut m: Vec<char> = Vec::new();
        push_str(&mut m, "missing `");
        push_str(&mut m, import_lib.as_str());
        push_str(&mut m, "`.\n");
        push_str(&mut m, expected_layout());
        return Err(string_of(m.as_slice()));
    }
    if !p.runtime_dll_is_file {
        let mut m: Vec<char> = Vec::new();
        push_str(&mut m, "missing `");
        push_str(&mut m, runtime_dll.as_str());
        push_str(&mut m, "`.\n");
        push_str(&mut m, expected_layout());
        return Err(string_of(m.as_slice()));
    }
    Ok(LlvmCLayout { prefix: p.prefix.clone(), lib_dir, bin_dir, import_lib, runtime_dll })
}

} // verus!
